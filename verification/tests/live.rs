//! From pipeline outcomes to screen events.

use std::hash::{Hash, Hasher};

use chibi_tui::app::Submitted;
use chibi_tui::live::{
    closing_events, pump_agent_events, pump_statuses, render_pipeline_error, request_args,
    resolve_model_label, send_failed_events, session_event, submitted_event_id, terminal_event,
    wire_thread_id, BackendEvent,
};
use chibi_tui::frame_text::frame_string;
use chibi_tui::protocol::{
    AgentEventKind, Capabilities, ErrorCode, ProtocolVersion, ServerInfo, ServerMessage,
    StatusState, Usage,
};
use chibi_tui::request_pipeline::{
    AgentEventUpdate, BackendError, Delivery, StatusRequestId, StatusUpdate,
};

fn result(content: &str, model: Option<&str>, provider: Option<&str>) -> ServerMessage {
    ServerMessage::Result {
        request_id: "x".into(),
        content: content.into(),
        model: model.map(str::to_owned),
        provider: provider.map(str::to_owned),
        usage: None,
        thoughts: None,
    }
}

#[test]
fn wire_thread_id_is_stable_and_distinct() {
    let a = "aaaaaaaa-bbbb-cccc-dddd-eeeeeeeeeeee";
    let b = "bbbbbbbb-bbbb-cccc-dddd-eeeeeeeeeeee";
    assert_eq!(wire_thread_id(a), wire_thread_id(a), "stable across calls");
    assert_ne!(wire_thread_id(a), wire_thread_id(b));
}

#[test]
fn wire_thread_id_always_non_negative() {
    for i in 0..2000u64 {
        let uuid = format!("{:036x}-{:04x}-{:04x}-{:04x}-{:012x}", i, i, i, i, i);
        let id = wire_thread_id(&uuid);
        assert!(id >= 0, "wire_thread_id({uuid}) = {id} is negative");
    }
}

#[test]
fn wire_thread_id_is_the_default_hash_without_its_sign_bit() {
    let mut hasher = std::collections::hash_map::DefaultHasher::new();
    "thread".hash(&mut hasher);
    assert_eq!(wire_thread_id("thread") as u64, hasher.finish() & 0x7FFF_FFFF_FFFF_FFFF);
}

#[test]
fn terminal_event_maps_result_content_verbatim() {
    let outcome = Some(Ok(result("**42**", None, None)));
    match terminal_event(outcome, 7, "thread-a".to_owned()) {
        BackendEvent::Result { request_id, markdown, thread_id, model, .. } => {
            assert_eq!(request_id, 7);
            assert_eq!(markdown, "**42**");
            assert_eq!(thread_id, "thread-a");
            assert_eq!(model, None, "fieldless frame: plain label");
        }
        other => panic!("expected Result, got {other:?}"),
    }
}

#[test]
fn resolve_model_label_prefers_model_over_provider() {
    assert_eq!(resolve_model_label(Some("glm-5.2"), Some("zhipu")), Some("glm-5.2".to_owned()));
}

#[test]
fn resolve_model_label_falls_back_to_provider() {
    assert_eq!(resolve_model_label(None, Some("moonshot")), Some("moonshot".to_owned()));
    assert_eq!(
        resolve_model_label(Some("  "), Some("moonshot")),
        Some("moonshot".to_owned()),
        "blank model must not shadow a usable provider"
    );
    assert_eq!(resolve_model_label(Some("kimi-k2.7"), None), Some("kimi-k2.7".to_owned()));
    assert_eq!(resolve_model_label(None, None), None);
    assert_eq!(resolve_model_label(Some(" "), Some("  ")), None);
}

#[test]
fn model_labels_are_trimmed() {
    assert_eq!(resolve_model_label(Some(" \u{2003}glm \n"), None), Some("glm".to_owned()));
}

#[test]
fn terminal_event_carries_resolved_model_label() {
    let outcome = Some(Ok(result("answer", Some("glm-5.2"), Some("zhipu"))));
    match terminal_event(outcome, 1, "t".to_owned()) {
        BackendEvent::Result { model, .. } => assert_eq!(model.as_deref(), Some("glm-5.2")),
        other => panic!("expected Result, got {other:?}"),
    }
}

#[test]
fn terminal_event_maps_cancelled_to_clean_error() {
    let outcome = Some(Err(BackendError::RequestFailed {
        request_id: Some("tui-1".into()),
        code: ErrorCode::Cancelled,
        message: "Request cancelled.".into(),
    }));
    match terminal_event(outcome, 1, "thread-b".to_owned()) {
        BackendEvent::Error { message, thread_id, .. } => {
            assert_eq!(message, "Cancelled");
            assert_eq!(thread_id.as_deref(), Some("thread-b"));
        }
        other => panic!("expected Error, got {other:?}"),
    }
}

#[test]
fn terminal_event_maps_broken_pipe_to_error() {
    let outcome = Some(Err(BackendError::Broken("child died".into())));
    match terminal_event(outcome, 2, "thread-c".to_owned()) {
        BackendEvent::Error { message, .. } => {
            assert!(message.contains("child died"), "{message}")
        }
        other => panic!("expected Error, got {other:?}"),
    }
}

#[test]
fn terminal_event_of_a_lost_connection_and_of_a_strange_frame() {
    match terminal_event(None, 3, "t".to_owned()) {
        BackendEvent::Error { message, .. } => assert_eq!(message, "backend connection lost"),
        other => panic!("expected Error, got {other:?}"),
    }
    let strange = ServerMessage::CwdUpdate { thread_id: 4, cwd: "/srv".into() };
    match terminal_event(Some(Ok(strange)), 3, "t".to_owned()) {
        BackendEvent::Error { message, .. } => {
            assert_eq!(
                message,
                "unexpected final frame from backend: CwdUpdate { thread_id: 4, cwd: \"/srv\" }"
            );
        }
        other => panic!("expected Error, got {other:?}"),
    }
}

#[test]
fn terminal_events_are_always_followed_by_queue_drain_signal() {
    let events = closing_events(Some(Ok(result("ok", None, None))), 1, "t1".to_owned());
    assert_eq!(events.len(), 2);
    assert!(matches!(events[0], BackendEvent::Result { .. }));
    match &events[1] {
        BackendEvent::QueueDrain { thread_id } => assert_eq!(thread_id, "t1"),
        other => panic!("expected QueueDrain after Result, got {other:?}"),
    }

    let events =
        closing_events(Some(Err(BackendError::Broken("child died".into()))), 2, "t2".to_owned());
    assert!(matches!(events[0], BackendEvent::Error { .. }));
    match &events[1] {
        BackendEvent::QueueDrain { thread_id } => assert_eq!(thread_id, "t2"),
        other => panic!("expected QueueDrain after Error, got {other:?}"),
    }
}

#[test]
fn a_submission_that_could_not_be_sent_still_drains() {
    let error = BackendError::UnknownRequest { request_id: "r".into() };
    let events = send_failed_events(&error, 9, "t3".to_owned());
    assert_eq!(
        events,
        vec![
            BackendEvent::Error {
                request_id: 9,
                message: "unknown request: r".to_owned(),
                thread_id: Some("t3".to_owned()),
            },
            BackendEvent::QueueDrain { thread_id: "t3".to_owned() },
        ]
    );
}

#[test]
fn pipeline_errors_read_well() {
    let failed = |code| BackendError::RequestFailed {
        request_id: None,
        code,
        message: "slow down".into(),
    };
    assert_eq!(
        render_pipeline_error(&failed(ErrorCode::RateLimited)),
        "Request failed (RateLimited): slow down"
    );
    assert_eq!(
        render_pipeline_error(&failed(ErrorCode::UnsupportedProtocolVersion)),
        "Request failed (UnsupportedProtocolVersion): slow down"
    );
    for code in [
        ErrorCode::NotInitialized,
        ErrorCode::MalformedRequest,
        ErrorCode::UnknownMessage,
        ErrorCode::UnknownRequest,
        ErrorCode::RequestFailed,
        ErrorCode::InvalidRequest,
        ErrorCode::BackendError,
    ] {
        assert_eq!(
            render_pipeline_error(&failed(code)),
            format!("Request failed ({code:?}): slow down")
        );
    }
    assert_eq!(render_pipeline_error(&failed(ErrorCode::Cancelled)), "Cancelled");
    let spawn = BackendError::Spawn { program: "chibi".into(), reason: "no such file".into() };
    assert_eq!(render_pipeline_error(&spawn), "failed to start chibi: no such file");
    let exit = BackendError::UnexpectedExit { status: 1 };
    assert_eq!(render_pipeline_error(&exit), "backend exited unexpectedly");
    let io = BackendError::Io("reset".into());
    assert_eq!(render_pipeline_error(&io), "backend I/O error: reset");
}

#[test]
fn a_submission_becomes_a_request_with_its_ids() {
    let submitted = Submitted {
        request_id: "11111111-2222-3333-4444-555555555555".to_owned(),
        thread_id: "aaaaaaaa-bbbb-cccc-dddd-eeeeeeeeeeee".to_owned(),
        prompt: "Explain what this function does.".to_owned(),
    };
    let args = request_args(&submitted);
    assert_eq!(args.request_id, submitted.request_id);
    assert_eq!(args.thread_id, wire_thread_id(&submitted.thread_id));
    assert_eq!(args.prompt, submitted.prompt);
    assert!(args.active_file.is_none() && args.selection.is_none());
    assert_eq!(submitted_event_id(&submitted), wire_thread_id(&submitted.request_id) as u64);
}

#[test]
fn status_updates_reach_their_own_request_only() {
    let update = |id: &str, state| StatusUpdate { request_id: StatusRequestId(id.into()), state };
    assert_eq!(pump_statuses(&update("other", StatusState::Queued), "r", "t", 1), None);
    assert_eq!(
        pump_statuses(&update("r", StatusState::Queued), "r", "t", 1),
        Some(BackendEvent::Queued { request_id: 1, thread_id: "t".into() })
    );
    assert_eq!(
        pump_statuses(&update("r", StatusState::Running), "r", "t", 1),
        Some(BackendEvent::Running { request_id: 1, thread_id: "t".into() })
    );
}

#[test]
fn subagent_updates_retire_at_zero_active() {
    let update = |id: &str, event, active| AgentEventUpdate {
        request_id: id.into(),
        event,
        active,
        total: 2,
    };
    let started = update("r", AgentEventKind::Started, 0);
    let (event, retired) = pump_agent_events(&started, "r", "t", 5);
    assert!(!retired, "a start never retires the counter");
    assert_eq!(
        event,
        Some(BackendEvent::AgentProgress {
            request_id: 5,
            thread_id: "t".into(),
            event: AgentEventKind::Started,
            active: 0,
            total: 2,
        })
    );
    assert!(!pump_agent_events(&update("r", AgentEventKind::Finished, 1), "r", "t", 5).1);
    assert!(pump_agent_events(&update("r", AgentEventKind::Finished, 0), "r", "t", 5).1);
    let (event, retired) =
        pump_agent_events(&update("other", AgentEventKind::Finished, 0), "r", "t", 5);
    assert!(event.is_none() && !retired, "another request's subagents");
}

#[test]
fn session_deliveries_become_events() {
    let background = Delivery::Background {
        thread_id: 12,
        content: "done".into(),
        model: None,
        provider: Some("zhipu".into()),
        thoughts: Some("hm".into()),
    };
    assert_eq!(
        session_event(background),
        Some(BackendEvent::BackgroundMessage {
            wire_thread_id: 12,
            markdown: "done".into(),
            model: Some("zhipu".into()),
            thoughts: Some("hm".into()),
        })
    );
    assert_eq!(
        session_event(Delivery::Cwd { thread_id: 3, cwd: "/tmp".into() }),
        Some(BackendEvent::CwdUpdate { wire_thread_id: 3, cwd: "/tmp".into() })
    );
    assert_eq!(session_event(Delivery::Dropped), None);
}

#[test]
fn usage_and_thoughts_ride_along_with_a_result() {
    let usage = Usage { input_tokens: 10, output_tokens: 2, context_window: None };
    let frame = ServerMessage::Result {
        request_id: "x".into(),
        content: "c".into(),
        model: None,
        provider: None,
        usage: Some(usage),
        thoughts: Some("because".into()),
    };
    match terminal_event(Some(Ok(frame)), 1, "t".into()) {
        BackendEvent::Result { usage: u, thoughts, .. } => {
            assert_eq!(u, Some(usage));
            assert_eq!(thoughts.as_deref(), Some("because"));
        }
        other => panic!("expected Result, got {other:?}"),
    }
}

#[test]
fn frames_read_as_their_debug_form() {
    let some = |s: &str| Some(s.to_owned());
    let frames = [
        ServerMessage::Ready {
            protocol_version: ProtocolVersion::current(),
            server: Some(ServerInfo { name: "chibi".into(), version: "1\n\"2\"".into() }),
            capabilities: Some(Capabilities { commands: vec!["/stop".into(), "/new".into()] }),
        },
        ServerMessage::Ready {
            protocol_version: ProtocolVersion::current(),
            server: None,
            capabilities: Some(Capabilities { commands: Vec::new() }),
        },
        ServerMessage::Status { request_id: "r".into(), state: StatusState::Running },
        ServerMessage::Status { request_id: "\u{e9}\t".into(), state: StatusState::Queued },
        ServerMessage::AgentEvent {
            request_id: "r".into(),
            event: AgentEventKind::Finished,
            active: 0,
            total: u64::MAX,
            name: some("worker"),
        },
        ServerMessage::AgentEvent {
            request_id: "r".into(),
            event: AgentEventKind::Started,
            active: 1,
            total: 2,
            name: None,
        },
        ServerMessage::Result {
            request_id: "r".into(),
            content: "**42**".into(),
            model: some("m"),
            provider: None,
            usage: Some(Usage { input_tokens: 10, output_tokens: 2, context_window: Some(7) }),
            thoughts: None,
        },
        ServerMessage::Message {
            thread_id: i64::MIN,
            content: "c".into(),
            model: None,
            provider: some("p"),
            thoughts: some("t"),
        },
        ServerMessage::CwdUpdate { thread_id: -4, cwd: "C:\\srv".into() },
        ServerMessage::Error {
            request_id: None,
            code: ErrorCode::RateLimited,
            server_protocol_version: Some(1),
            message: "later".into(),
        },
    ];
    for frame in &frames {
        assert_eq!(frame_string(frame), format!("{frame:?}"));
    }
}
