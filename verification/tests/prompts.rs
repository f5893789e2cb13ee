//! Prompts in their chats.

use chibi_tui::mock::chat;
use chibi_tui::model::{ChatLifecycle, Message};
use chibi_tui::prompts::{accept_prompt, begin_request, dequeue, mark_running, settle};

#[test]
fn a_free_chat_hands_its_prompt_out() {
    let mut c = chat("c", "id", Vec::new());
    let sent = accept_prompt(&mut c, "r1", "hello").expect("sent at once");
    assert_eq!((sent.request_id.as_str(), sent.thread_id.as_str()), ("r1", "id"));
    assert_eq!(sent.prompt, "hello");
    assert_eq!(c.messages.len(), 2);
    assert!(c.messages[1].pending);
    assert_eq!(c.lifecycle, ChatLifecycle::Idle, "busy only once it is sent");
    begin_request(&mut c, &sent.request_id);
    assert_eq!(c.lifecycle, ChatLifecycle::Awaiting { request_id: "r1".to_owned() });
    mark_running(&mut c);
    assert_eq!(c.lifecycle, ChatLifecycle::Running { request_id: "r1".to_owned() });
}

#[test]
fn blank_prompts_are_refused() {
    let mut c = chat("c", "id", Vec::new());
    assert!(accept_prompt(&mut c, "r1", " \n\t").is_none());
    assert!(c.messages.is_empty());
    mark_running(&mut c);
    assert_eq!(c.lifecycle, ChatLifecycle::Idle);
}

#[test]
fn queued_multiline_prompt_preserves_newlines_through_the_fifo() {
    let mut c = chat("chat-0", "id", Vec::new());
    let first = accept_prompt(&mut c, "r1", "in flight").expect("prompt taken");
    begin_request(&mut c, &first.request_id);

    assert!(
        accept_prompt(&mut c, "r2", "queued one\nqueued two").is_none(),
        "busy chat enqueues, no immediate send"
    );
    let drained = dequeue(&mut c).expect("queued prompt drained");
    assert_eq!(
        drained.prompt, "queued one\nqueued two",
        "the queued prompt keeps its newline through enqueue and drain"
    );
    assert_ne!(drained.request_id, first.request_id);
    assert_eq!(c.lifecycle.request_id(), Some("r2"));
}

#[test]
fn queued_prompts_wait_their_turn() {
    let mut c = chat("c", "id", Vec::new());
    begin_request(&mut c, "r1");
    assert!(accept_prompt(&mut c, "r2", "second").is_none());
    assert!(accept_prompt(&mut c, "r3", "third").is_none());
    assert_eq!(c.messages[1].markdown, "\u{23f3} queued (#1)");
    assert_eq!(c.messages[3].markdown, "\u{23f3} queued (#2)");
    assert_eq!(dequeue(&mut c).map(|s| s.prompt).as_deref(), Some("second"));
    assert_eq!(dequeue(&mut c).map(|s| s.prompt).as_deref(), Some("third"));
    assert!(dequeue(&mut c).is_none());
    assert_eq!(c.lifecycle.request_id(), Some("r3"));
}

#[test]
fn an_answer_fills_the_oldest_placeholder() {
    let mut c = chat("c", "id", Vec::new());
    let sent = accept_prompt(&mut c, "r1", "one").expect("sent");
    begin_request(&mut c, &sent.request_id);
    assert!(accept_prompt(&mut c, "r2", "two").is_none());
    assert_eq!(settle(&mut c, Message::assistant("first"), false), 1);
    assert_eq!(c.messages[1].markdown, "first");
    assert!(!c.messages[1].pending && c.messages[3].pending);
    assert!(c.unread, "nobody looked");
    assert_eq!(c.lifecycle, ChatLifecycle::Idle);
    settle(&mut c, Message::assistant("second"), true);
    assert_eq!(settle(&mut c, Message::assistant("late"), true), 4, "no placeholder left");
    assert_eq!(c.messages[4].markdown, "late");
    assert!(!c.unread);
}
