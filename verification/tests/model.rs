//! Messages, lifecycles and the error popup.

use chibi_tui::model::{ChatLifecycle, Message, Role};
use chibi_tui::popup::ErrorPopup;

#[test]
fn pending_placeholder_normalizes_to_empty_assistant_message() {
    let m = Message::assistant_pending();
    assert!(m.pending);
    let stored = m.normalized_for_storage();
    assert!(!stored.pending);
    assert_eq!(stored.role, Role::Assistant);
    assert_eq!(stored.markdown, "");
}

#[test]
fn finished_messages_pass_through_unchanged() {
    let user = Message::user("hi");
    assert!(!user.normalized_for_storage().pending);
    let answer = Message::assistant("**bold**");
    let stored = answer.normalized_for_storage();
    assert!(!stored.pending);
    assert_eq!(stored.markdown, "**bold**");
}

#[test]
fn lifecycle_default_is_idle() {
    assert_eq!(ChatLifecycle::default(), ChatLifecycle::Idle);
    assert!(!ChatLifecycle::Idle.is_busy());
    assert!(ChatLifecycle::Idle.request_id().is_none());
}

#[test]
fn lifecycle_request_id_and_busy_flags() {
    let awaiting = ChatLifecycle::Awaiting { request_id: "r1".to_owned() };
    let running = ChatLifecycle::Running { request_id: "r2".to_owned() };
    for (lifecycle, id) in [(&awaiting, "r1"), (&running, "r2")] {
        assert!(lifecycle.is_busy());
        assert_eq!(lifecycle.request_id(), Some(id));
    }
}

#[test]
fn queued_placeholders_name_their_position() {
    let m = Message::assistant_queued(2);
    assert!(m.pending);
    assert_eq!(m.role, Role::Assistant);
    assert_eq!(m.markdown, "\u{23f3} queued (#2)");
}

#[test]
fn popup_carries_message_and_hint() {
    let p = ErrorPopup::new("backend exploded");
    assert_eq!(p.message, "backend exploded");
    assert!(ErrorPopup::hint().contains('R'));
    assert!(ErrorPopup::hint().contains("quit"));
}
