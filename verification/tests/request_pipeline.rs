//! Request correlation and the protocol's own texts.

use chibi_tui::protocol::{
    AgentEventKind, ClientMessage, CursorPosition, ErrorCode, ProtocolVersion, Selection,
    ServerMessage, StatusState,
};
use chibi_tui::request_pipeline::{
    actor_gone, backend_argv, parse_frame, read_step, shutdown_verdict, unknown_frame_note,
    BackendError, CancelStep, Correlation, Delivery, FrameWrite, ReadOutcome, ReaderStep,
    RequestArgs, SendStep, StatusRequestId, StatusUpdate,
};

fn table(ids: &[&str]) -> Correlation {
    let mut t = Correlation::new();
    for id in ids {
        t.request_sent((*id).to_owned());
    }
    t
}

fn result(id: &str) -> ServerMessage {
    ServerMessage::Result {
        request_id: id.to_owned(),
        content: "ok".to_owned(),
        model: None,
        provider: None,
        usage: None,
        thoughts: None,
    }
}

fn error(id: Option<&str>) -> ServerMessage {
    ServerMessage::Error {
        request_id: id.map(str::to_owned),
        code: ErrorCode::Cancelled,
        server_protocol_version: None,
        message: "stopped".to_owned(),
    }
}

#[test]
fn a_request_goes_out_with_the_configured_root() {
    let t = Correlation::new();
    let args = RequestArgs::new("r1", 7, "prompt")
        .active_file("src/lib.rs")
        .selection(Selection { start_line: 1, end_line: 2, text: "fn".to_owned() })
        .cursor_position(CursorPosition { line: 3, character: 4 })
        .language_id("rust");
    match t.handle_send(args, "/work") {
        SendStep::Write(ClientMessage::Request {
            request_id,
            thread_id,
            prompt,
            workspace_root,
            active_file,
            selection,
            cursor_position,
            language_id,
        }) => {
            assert_eq!(request_id, "r1");
            assert_eq!(thread_id, 7);
            assert_eq!(prompt, "prompt");
            assert_eq!(workspace_root, "/work");
            assert_eq!(active_file.as_deref(), Some("src/lib.rs"));
            assert_eq!(selection.map(|s| s.end_line), Some(2));
            assert_eq!(cursor_position, Some(CursorPosition { line: 3, character: 4 }));
            assert_eq!(language_id.as_deref(), Some("rust"));
        }
        other => panic!("expected Write, got {other:?}"),
    }
}

#[test]
fn a_duplicate_id_is_refused_without_a_change() {
    let t = table(&["r1"]);
    match t.handle_send(RequestArgs::new("r1", 1, "again"), "/") {
        SendStep::Duplicate(BackendError::Broken(reason)) => {
            assert_eq!(reason, "duplicate request id: r1")
        }
        other => panic!("expected Duplicate, got {other:?}"),
    }
    assert!(t.is_pending("r1"));
}

#[test]
fn a_result_resolves_its_own_request_alone() {
    let mut t = table(&["a", "b", "c"]);
    match t.dispatch_frame(result("b")) {
        Delivery::Resolve { request_id, outcome } => {
            assert_eq!(request_id, "b");
            assert_eq!(outcome, Ok(result("b")));
        }
        other => panic!("expected Resolve, got {other:?}"),
    }
    assert!(t.is_pending("a") && !t.is_pending("b") && t.is_pending("c"));
    assert!(matches!(t.dispatch_frame(result("b")), Delivery::Dropped), "only once");
}

#[test]
fn an_error_fails_its_request_and_a_global_one_nobody() {
    let mut t = table(&["a"]);
    assert!(matches!(t.dispatch_frame(error(None)), Delivery::Dropped));
    assert!(t.is_pending("a"));
    match t.dispatch_frame(error(Some("a"))) {
        Delivery::Resolve { outcome: Err(BackendError::RequestFailed { code, .. }), .. } => {
            assert_eq!(code, ErrorCode::Cancelled)
        }
        other => panic!("expected a failed request, got {other:?}"),
    }
    assert!(!t.is_pending("a"));
}

#[test]
fn progress_never_resolves_a_request() {
    let mut t = table(&["a"]);
    let status = ServerMessage::Status { request_id: "a".to_owned(), state: StatusState::Running };
    match t.dispatch_frame(status) {
        Delivery::Status(update) => {
            assert_eq!(update.request_id, StatusRequestId("a".to_owned()));
            assert_eq!(update.to_text(), "a: running");
        }
        other => panic!("expected Status, got {other:?}"),
    }
    let agent = ServerMessage::AgentEvent {
        request_id: "a".to_owned(),
        event: AgentEventKind::Finished,
        active: 0,
        total: 3,
        name: None,
    };
    assert!(matches!(t.dispatch_frame(agent), Delivery::Agent(_)));
    let message = ServerMessage::Message {
        thread_id: 1,
        content: "late".to_owned(),
        model: None,
        provider: None,
        thoughts: None,
    };
    assert!(matches!(t.dispatch_frame(message), Delivery::Background { .. }));
    let cwd = ServerMessage::CwdUpdate { thread_id: 1, cwd: "/".to_owned() };
    assert!(matches!(t.dispatch_frame(cwd), Delivery::Cwd { .. }));
    let ready = ServerMessage::Ready {
        protocol_version: ProtocolVersion::current(),
        server: None,
        capabilities: None,
    };
    assert!(matches!(t.dispatch_frame(ready), Delivery::Dropped));
    assert!(t.is_pending("a"));
}

#[test]
fn a_cancel_is_targeted() {
    let t = table(&["a"]);
    match t.handle_cancel("a".to_owned()) {
        CancelStep::Write(ClientMessage::Cancel { request_id }) => assert_eq!(request_id, "a"),
        other => panic!("expected Write, got {other:?}"),
    }
    match t.handle_cancel("z".to_owned()) {
        CancelStep::Refused(BackendError::UnknownRequest { request_id }) => {
            assert_eq!(request_id, "z")
        }
        other => panic!("expected a refusal, got {other:?}"),
    }
}

#[test]
fn a_broken_pipe_fails_everything_until_a_reconnect() {
    let mut t = table(&["a", "b"]);
    let (failed, note) = t.pipe_died("EOF".to_owned());
    assert_eq!(failed, ["a", "b"]);
    assert_eq!(note, "pipe closed: EOF");
    assert_eq!(t.broken(), Some("EOF"));
    assert!(matches!(
        t.handle_send(RequestArgs::new("c", 1, "p"), "/"),
        SendStep::Broken(reason) if reason == "EOF"
    ));
    assert!(matches!(
        t.handle_cancel("a".to_owned()),
        CancelStep::Refused(BackendError::Broken(reason)) if reason == "EOF"
    ));
    t.reconnect_failed("no binary");
    assert_eq!(t.broken(), Some("reconnect failed: no binary"));
    t.reconnected();
    assert_eq!(t.broken(), None);
    assert!(matches!(t.handle_send(RequestArgs::new("a", 1, "p"), "/"), SendStep::Write(_)));
}

#[test]
fn a_failed_write_breaks_the_pipe() {
    let mut t = table(&["a"]);
    assert!(t.send_frame(FrameWrite::Written).0.is_ok());
    let (verdict, failed) = t.send_frame(FrameWrite::Closed);
    assert_eq!(
        verdict,
        Err(BackendError::Broken("backend stdin already closed".to_owned()))
    );
    assert!(failed.is_empty() && t.is_pending("a"));
    let (verdict, _) = t.send_frame(FrameWrite::NotSerialized("odd".to_owned()));
    assert_eq!(
        verdict,
        Err(BackendError::Broken("cannot serialize frame: odd".to_owned()))
    );
    let (verdict, failed) = t.send_frame(FrameWrite::Failed("EPIPE".to_owned()));
    assert_eq!(verdict, Err(BackendError::Io("EPIPE".to_owned())));
    assert_eq!(failed, ["a"]);
    assert_eq!(t.broken(), Some("EPIPE"));
}

#[test]
fn unknown_frame_type_leaves_diag_trace_and_loop_continues() {
    let line = r#"{"type":"holo_deck","request_id":"r1"}"#;
    let (frame, note) = parse_frame(line, None);
    assert!(frame.is_none(), "unknown type must not become a frame");
    assert_eq!(note.as_deref(), Some("unknown frame type: holo_deck"));
    let known = r#"{"type":"result","request_id":"r2","content":"ok"}"#;
    let (frame, note) = parse_frame(known, Some(result("r2")));
    assert!(frame.is_some(), "known types still parse after an unknown one");
    assert!(note.is_none());
}

#[test]
fn garbage_line_still_dropped_silently() {
    let (frame, note) = parse_frame("not json at all", None);
    assert!(frame.is_none());
    assert!(note.is_none(), "no diag line for plain garbage");
    assert_eq!(parse_frame(r#"{"type":7}"#, None).1, None, "the tag has to be a string");
    assert_eq!(unknown_frame_note(None), None);
}

#[test]
fn reader_lines_lose_their_line_ends() {
    match read_step(ReadOutcome::Line("{}\r\n".to_owned())) {
        ReaderStep::Line(line) => assert_eq!(line, "{}"),
        other => panic!("expected Line, got {other:?}"),
    }
    match read_step(ReadOutcome::End) {
        ReaderStep::Died(reason) => assert_eq!(reason, "backend closed stdout (EOF)"),
        other => panic!("expected Died, got {other:?}"),
    }
    match read_step(ReadOutcome::Failed("reset".to_owned())) {
        ReaderStep::Died(reason) => assert_eq!(reason, "reset"),
        other => panic!("expected Died, got {other:?}"),
    }
}

#[test]
fn shutdown_verdicts() {
    assert_eq!(shutdown_verdict(Some(Ok(0))), Ok(()));
    assert_eq!(
        shutdown_verdict(Some(Ok(3))),
        Err(BackendError::UnexpectedExit { status: 3 })
    );
    assert_eq!(
        shutdown_verdict(None),
        Err(BackendError::Broken("no live backend to shut down".to_owned()))
    );
    assert_eq!(
        shutdown_verdict(Some(Err(BackendError::Io("x".to_owned())))),
        Err(BackendError::Io("x".to_owned()))
    );
    assert_eq!(actor_gone(), BackendError::Broken("pipeline actor stopped".to_owned()));
}

#[test]
fn backend_command_lines() {
    let none: Vec<String> = Vec::new();
    assert_eq!(backend_argv(None, None, "/w", &none), ["chibi", "stdio", "--tui"]);
    assert_eq!(
        backend_argv(Some("/opt/chibi"), None, "/w", &vec!["-v".to_owned()]),
        ["/opt/chibi", "stdio", "--tui", "-v"]
    );
    assert_eq!(
        backend_argv(None, Some("fake.py"), "/w", &vec!["--slow".to_owned()]),
        ["python3", "fake.py", "--workspace", "/w", "--slow"]
    );
    assert_eq!(backend_argv(None, Some("chibi"), "/w", &none), ["chibi", "stdio", "--tui"]);
    assert_eq!(
        backend_argv(Some("/opt/chibi"), Some("chibi"), "/w", &vec!["-v".to_owned()]),
        ["/opt/chibi", "stdio", "--tui", "-v"]
    );
}

#[test]
fn protocol_names_and_versions() {
    assert_eq!(ProtocolVersion::current().number(), 1);
    assert_eq!(ProtocolVersion::from_number(1), Ok(ProtocolVersion));
    assert_eq!(
        ProtocolVersion::from_number(2),
        Err("unsupported protocol version: 2 (supported: 1)".to_owned())
    );
    assert_eq!(StatusState::Queued.as_str(), "queued");
    assert_eq!(StatusState::Running.as_str(), "running");
    assert_eq!(AgentEventKind::Started.as_str(), "started");
    assert_eq!(AgentEventKind::Finished.as_str(), "finished");
    let update = StatusUpdate {
        request_id: StatusRequestId("r".to_owned()),
        state: StatusState::Queued,
    };
    assert_eq!(update.to_text(), "r: queued");
}
