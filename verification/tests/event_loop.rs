//! The decisions of the event loop.

use chibi_tui::app::{
    Chat, Connection, Focus, LogViewerState, Mode, StopResetAction, Submitted,
};
use chibi_tui::event_loop::{
    after_key, after_take, any_busy, cancel_failed, cancel_reaches_backend, chat_to_persist,
    connect_live, connecting, first_connect_failed, handle_paste, key_snapshot,
    note_active_thread, plain_submit_rejected, route_event, send_submitted, staged_actions,
    startup_chats, startup_selection, AfterKey, AfterTake, EventRoute, KeyOutcome, LoopAction,
    SendRoute, Source, Staged, StartStep,
};
use chibi_tui::keys::{KeyCode, KeyEvent, KeyModifiers};
use chibi_tui::live::{wire_thread_id, BackendEvent};
use chibi_tui::mock::{chat, initial_chats, mock_replies};
use chibi_tui::model::{ChatLifecycle, Message, Role};
use chibi_tui::prompts::accept_prompt;
use chibi_tui::request_pipeline::BackendError;

fn enter(shift: bool) -> KeyEvent {
    KeyEvent::new(
        KeyCode::Enter,
        KeyModifiers { control: false, shift, alt: false, other: false },
    )
}

fn outcome(source: Source) -> KeyOutcome {
    KeyOutcome { normal_mode: true, name_changed: false, error_popup: false, source }
}

fn submitted(id: &str) -> Submitted {
    Submitted { request_id: id.to_owned(), thread_id: "t-1".to_owned(), prompt: "hello".to_owned() }
}

#[test]
fn bare_enter_over_the_editor_submits() {
    let before = key_snapshot(&Mode::Normal, Focus::Chat, false);
    assert_eq!(after_key(&before, &enter(false), &outcome(Source::Live)), AfterKey::Submit);
    assert_eq!(after_key(&before, &enter(false), &outcome(Source::Mock)), AfterKey::Submit);
    assert_eq!(after_key(&before, &enter(true), &outcome(Source::Live)), AfterKey::Nothing);
    assert_eq!(
        after_key(&before, &enter(false), &outcome(Source::LivePlaceholder)),
        AfterKey::Nothing
    );
    let popup = KeyOutcome { error_popup: true, ..outcome(Source::Live) };
    assert_eq!(after_key(&before, &enter(false), &popup), AfterKey::Nothing);
}

#[test]
fn a_popup_keeps_its_enter() {
    let owned = [
        key_snapshot(&Mode::ConfirmDelete, Focus::Chat, false),
        key_snapshot(
            &Mode::ConfirmStopReset { action: StopResetAction::Reset },
            Focus::Chat,
            false,
        ),
        key_snapshot(&Mode::HelpViewing { scroll: 0 }, Focus::Chat, false),
        key_snapshot(&Mode::Normal, Focus::Sidebar, false),
        key_snapshot(&Mode::Normal, Focus::Chat, true),
    ];
    for before in owned {
        assert_eq!(after_key(&before, &enter(false), &outcome(Source::Live)), AfterKey::Nothing);
    }
    let viewer = Mode::LogViewer {
        state: LogViewerState {
            lines: Vec::new(),
            cursor: 0,
            wrap: false,
            snapshot_total: 0,
            row_offset: 0,
            search_buf: Some("typed".to_owned()),
            search: None,
            copy_note: None,
        },
    };
    let before = key_snapshot(&viewer, Focus::Chat, false);
    assert_eq!(after_key(&before, &enter(false), &outcome(Source::Live)), AfterKey::Nothing);
    let editor = key_snapshot(&Mode::Normal, Focus::Chat, false);
    let opened = KeyOutcome { normal_mode: false, ..outcome(Source::Live) };
    assert_eq!(after_key(&editor, &enter(false), &opened), AfterKey::Nothing);
}

#[test]
fn quit_confirm_enter_with_nonempty_draft_does_not_submit() {
    let before = key_snapshot(&Mode::Normal, Focus::Chat, true);
    let after = after_key(&before, &enter(false), &outcome(Source::Live));
    assert_ne!(after, AfterKey::Submit, "the confirming Enter belongs to the popup");
}

#[test]
fn renames_are_stored_and_rejected_ones_are_not_sent() {
    let before = key_snapshot(&Mode::Renaming { buf: "x".to_owned() }, Focus::Chat, false);
    let renamed = KeyOutcome { name_changed: true, ..outcome(Source::Live) };
    assert_eq!(after_key(&before, &enter(false), &renamed), AfterKey::PersistRename);
    assert_eq!(after_key(&before, &enter(false), &outcome(Source::Live)), AfterKey::Nothing);
    let open = KeyOutcome { normal_mode: false, name_changed: true, ..outcome(Source::Live) };
    assert_eq!(after_key(&before, &enter(true), &open), AfterKey::Nothing);
}

#[test]
fn a_taken_draft_is_sent_and_a_queued_one_stored() {
    assert_eq!(after_take(true, 0), AfterTake::SendAndPersist);
    assert_eq!(after_take(false, 2), AfterTake::Persist);
    assert_eq!(after_take(false, 0), AfterTake::Nothing);
}

#[test]
fn staged_work_runs_in_order() {
    let staged = || Staged {
        picker: Some(submitted("picker")),
        clone_thread: Some(submitted("clone")),
        control: Some(submitted("control")),
        delete: Some("gone".to_owned()),
        reconnect: true,
        cancel: Some(("r".to_owned(), "t".to_owned())),
    };
    let names = |actions: Vec<LoopAction>| -> Vec<String> {
        actions
            .into_iter()
            .map(|a| match a {
                LoopAction::Send(s) => s.request_id,
                LoopAction::DeleteHistory(id) => id,
                LoopAction::Reconnect => "reconnect".to_owned(),
                LoopAction::DismissError => "dismiss".to_owned(),
                LoopAction::Cancel { request_id, thread_id } => format!("{request_id}/{thread_id}"),
            })
            .collect()
    };
    assert_eq!(
        names(staged_actions(staged(), Source::Live)),
        ["picker", "clone", "control", "gone", "reconnect", "r/t"]
    );
    assert_eq!(
        names(staged_actions(staged(), Source::Mock)),
        ["picker", "clone", "control", "gone", "dismiss", "r/t"]
    );
    assert!(cancel_reaches_backend(Source::Live));
    assert!(!cancel_reaches_backend(Source::Mock));
    assert!(!cancel_reaches_backend(Source::LivePlaceholder));
}

#[test]
fn send_submitted_placeholder_emits_error_not_panic() {
    match send_submitted(Source::LivePlaceholder, &submitted("r-1")) {
        SendRoute::Offline(BackendEvent::Error { message, thread_id, .. }) => {
            assert!(message.contains("offline"), "{message}");
            assert_eq!(thread_id.as_deref(), Some("t-1"));
        }
        other => panic!("expected Error, got {other:?}"),
    }
}

#[test]
fn send_submitted_mock_receives_prompt() {
    let sent = Submitted {
        request_id: "r-2".to_owned(),
        thread_id: "t-2".to_owned(),
        prompt: "mock me".to_owned(),
    };
    match send_submitted(Source::Mock, &sent) {
        SendRoute::Mock(prompt) => assert_eq!(prompt, "mock me"),
        other => panic!("expected Mock, got {other:?}"),
    }
    match send_submitted(Source::Live, &sent) {
        SendRoute::Live(bundle) => assert_eq!(bundle, sent),
        other => panic!("expected Live, got {other:?}"),
    }
}

#[test]
fn failed_cancels_and_plain_submits_are_told() {
    let error = BackendError::UnknownRequest { request_id: "r".to_owned() };
    match cancel_failed("t-9", &error) {
        BackendEvent::Error { request_id, message, thread_id } => {
            assert_eq!(request_id, 0);
            assert_eq!(message, "cancel failed (t-9): unknown request: r");
            assert_eq!(thread_id, None);
        }
        other => panic!("expected Error, got {other:?}"),
    }
    assert!(matches!(plain_submit_rejected(), BackendEvent::Error { request_id: 0, .. }));
}

fn chats() -> Vec<Chat> {
    vec![
        chat("a", "id-a", vec![Message::user("question")]),
        chat("b", "id-b", Vec::new()),
    ]
}

#[test]
fn events_are_stored_with_the_chat_they_belong_to() {
    let all = chats();
    let background = BackendEvent::BackgroundMessage {
        wire_thread_id: wire_thread_id("id-b"),
        markdown: String::new(),
        model: None,
        thoughts: None,
    };
    assert_eq!(chat_to_persist(&route_event(&background), &all, 0), Some(1));
    let unknown = EventRoute::Background(-1);
    assert_eq!(chat_to_persist(&unknown, &all, 0), None, "wire ids are never negative");
    let drain = BackendEvent::QueueDrain { thread_id: "id-a".to_owned() };
    assert_eq!(chat_to_persist(&route_event(&drain), &all, 1), Some(0));
    let gone = BackendEvent::QueueDrain { thread_id: "id-z".to_owned() };
    assert_eq!(chat_to_persist(&route_event(&gone), &all, 1), None);
    let ordinary = BackendEvent::Queued { request_id: 1, thread_id: "id-a".to_owned() };
    assert_eq!(chat_to_persist(&route_event(&ordinary), &all, 1), Some(1));
    assert_eq!(chat_to_persist(&route_event(&ordinary), &all, 7), None);
}

#[test]
fn the_spinner_turns_while_any_chat_is_busy() {
    let mut all = chats();
    assert!(!any_busy(&all));
    all[1].lifecycle = ChatLifecycle::Awaiting { request_id: "r".to_owned() };
    assert!(any_busy(&all));
}

#[test]
fn switching_threads_updates_the_persisted_pointer() {
    let mut noted: Option<String> = None;
    assert_eq!(note_active_thread(&mut noted, Some("first")).as_deref(), Some("first"));
    assert_eq!(note_active_thread(&mut noted, Some("first")), None, "nothing changed");
    assert_eq!(note_active_thread(&mut noted, Some("second")).as_deref(), Some("second"));
    assert_eq!(note_active_thread(&mut noted, Some("first")).as_deref(), Some("first"));
    assert_eq!(note_active_thread(&mut noted, None), None);
    assert_eq!(noted, None);
}

#[test]
fn bracketed_multiline_paste_inserts_lines_without_submitting() {
    let pasted =
        handle_paste("line one\nline two\nline three", &Mode::Normal, Focus::Chat, false, false);
    assert_eq!(pasted.as_deref(), Some("line one\nline two\nline three"));
}

#[test]
fn pasted_multiline_draft_submits_prompt_with_newlines() {
    let draft = handle_paste("line one\nline two", &Mode::Normal, Focus::Chat, false, false)
        .expect("pasted");
    let mut c = chat("chat-0", "id", Vec::new());
    let submitted = accept_prompt(&mut c, "r", &draft).expect("prompt taken");
    assert_eq!(
        submitted.prompt, "line one\nline two",
        "paste newlines must reach the wire prompt, not be stripped away"
    );
    assert!(
        !submitted.prompt.contains("oneline"),
        "words from consecutive lines must never glue together"
    );
}

#[test]
fn paste_normalizes_crlf_and_bare_cr_to_newlines() {
    let pasted = handle_paste("alpha\r\nbeta\rgamma", &Mode::Normal, Focus::Chat, false, false);
    let draft = pasted.expect("pasted");
    assert_eq!(draft.split('\n').collect::<Vec<_>>(), ["alpha", "beta", "gamma"]);
    let runs = handle_paste("\r\r\n\n\r", &Mode::Normal, Focus::Chat, false, false);
    assert_eq!(runs.as_deref(), Some("\n\n\n\n"));
}

#[test]
fn paste_into_sidebar_focus_is_swallowed() {
    let pasted =
        handle_paste("should not land\nanywhere", &Mode::Normal, Focus::Sidebar, false, false);
    assert_eq!(pasted, None);
}

#[test]
fn paste_while_quit_confirm_is_open_is_swallowed() {
    assert_eq!(handle_paste("pasted\njunk", &Mode::Normal, Focus::Chat, false, true), None);
    assert_eq!(handle_paste("pasted\njunk", &Mode::Normal, Focus::Chat, true, false), None);
    assert_eq!(handle_paste("pasted\njunk", &Mode::ConfirmDelete, Focus::Chat, false, false), None);
    assert_eq!(handle_paste("", &Mode::Normal, Focus::Chat, false, false), None);
}

#[test]
fn a_reconnect_ends_up_or_down() {
    let link = connecting(Some("boom".to_owned()));
    assert_eq!(link.source, Source::LivePlaceholder);
    assert_eq!(link.connection, Connection::Connecting);
    assert_eq!(link.error.as_deref(), Some("boom"), "the popup stays meanwhile");
    let up = connect_live(Ok(()));
    assert_eq!((up.source, up.connection, up.error), (Source::Live, Connection::Connected, None));
    let down = connect_live(Err(BackendError::Broken("gone".to_owned())));
    assert_eq!(down.connection, Connection::Disconnected);
    assert_eq!(down.source, Source::LivePlaceholder);
    assert_eq!(down.error.as_deref(), Some("backend connection broken: gone"));
}

#[test]
fn a_missing_backend_gets_the_setup_screen() {
    let spawn =
        BackendError::Spawn { program: "chibi".to_owned(), reason: "no such file".to_owned() };
    assert!(matches!(first_connect_failed(&spawn, None), StartStep::SetupScreen));
    match first_connect_failed(&spawn, Some("/opt/chibi")) {
        StartStep::Offline(link) => {
            assert_eq!(
                link.error.as_deref(),
                Some(
                    "failed to start chibi: no such file\n(hint: use --mock for the offline demo mode)"
                )
            );
            assert_eq!(link.connection, Connection::Disconnected);
        }
        other => panic!("expected Offline, got {other:?}"),
    }
}

#[test]
fn startup_keeps_stored_chats_or_makes_one() {
    let fresh = startup_chats(Vec::new(), "fresh-id");
    assert_eq!(fresh.len(), 1);
    assert_eq!(fresh[0].name, "New chat 1");
    assert_eq!(fresh[0].id, "fresh-id");
    assert!(fresh[0].messages.is_empty());
    let stored = startup_chats(chats(), "fresh-id");
    assert_eq!(stored.len(), 2);
    assert_eq!(stored[0].id, "id-a");
}

#[test]
fn startup_reopens_the_last_thread_where_it_survived() {
    let all = chats();
    assert_eq!(startup_selection(&all, Some("id-b")), 1);
    assert_eq!(startup_selection(&all, Some("dangling")), 0);
    assert_eq!(startup_selection(&all, None), 0);
}

#[test]
fn the_demo_starts_with_four_chats() {
    let ids: Vec<String> = (0..4).map(|i| format!("id-{i}")).collect();
    let all = initial_chats(&ids);
    let names: Vec<&str> = all.iter().map(|c| c.name.as_str()).collect();
    assert_eq!(names, ["JSONL protocol", "Model choice", "Refactor utils.py", "Ideas"]);
    assert_eq!(all.iter().map(|c| c.messages.len()).collect::<Vec<_>>(), [4, 2, 4, 2]);
    assert_eq!(all[2].id, "id-2");
    for c in &all {
        assert_eq!(c.lifecycle, ChatLifecycle::Idle);
        assert!(c.queue.is_empty() && !c.unread);
        assert_eq!(c.messages[0].role, Role::User);
    }
    assert_eq!(mock_replies().len(), 4);
    assert!(mock_replies()[0].starts_with("## Quick answer"));
}
