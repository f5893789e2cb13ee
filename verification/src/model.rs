//! Core data model shared between the views and the backend source.

use vstd::prelude::*;
use crate::text;

verus! {

/// Role of a message author.
#[derive(Clone, Copy, Debug, PartialEq, Eq, Structural)]
pub enum Role {
    User,
    Assistant,
}

/// A single chat message. `markdown` is raw CommonMark text.
#[derive(Debug)]
pub struct Message {
    pub role: Role,
    pub markdown: String,
    /// In-flight placeholder shown while the assistant answer is pending. It is
    /// never stored as `true` (see [`Message::normalized_for_storage`]).
    pub pending: bool,
}

/// What a [`Message`] holds.
#[verifier::ext_equal]
pub struct MessageView {
    pub role: Role,
    pub markdown: Seq<char>,
    pub pending: bool,
}

impl View for Message {
    type V = MessageView;

    open spec fn view(&self) -> MessageView {
        MessageView { role: self.role, markdown: self.markdown@, pending: self.pending }
    }
}

/// A finished message of the user.
pub open spec fn user_message(markdown: Seq<char>) -> MessageView {
    MessageView { role: Role::User, markdown, pending: false }
}

/// A finished message of the assistant.
pub open spec fn assistant_message(markdown: Seq<char>) -> MessageView {
    MessageView { role: Role::Assistant, markdown, pending: false }
}

/// What is stored of a message: a pending placeholder becomes an empty answer.
pub open spec fn stored(m: MessageView) -> MessageView {
    if m.pending {
        assistant_message(Seq::empty())
    } else {
        m
    }
}

impl Message {
    pub fn user(markdown: &str) -> (r: Message)
        ensures
            r@ == user_message(markdown@),
    {
        Message { role: Role::User, markdown: text::owned(markdown), pending: false }
    }

    pub fn assistant(markdown: &str) -> (r: Message)
        ensures
            r@ == assistant_message(markdown@),
    {
        Message { role: Role::Assistant, markdown: text::owned(markdown), pending: false }
    }

    /// Placeholder for a future assistant reply.
    pub fn assistant_pending() -> (r: Message)
        ensures
            r@ == (MessageView { role: Role::Assistant, markdown: Seq::empty(), pending: true }),
    {
        Message { role: Role::Assistant, markdown: String::new(), pending: true }
    }

    /// Visible marker for a prompt that waits at `position` in the chat's queue.
    pub fn assistant_queued(position: usize) -> (r: Message)
        ensures
            r@ == (MessageView {
                role: Role::Assistant,
                markdown: "\u{23f3} queued (#"@ + text::decimal(position as nat) + ")"@,
                pending: true,
            }),
    {
        let number = text::decimal_usize(position);
        Message {
            role: Role::Assistant,
            markdown: text::concat3("\u{23f3} queued (#", number.as_str(), ")"),
            pending: true,
        }
    }

    /// Storage form of a message: pending placeholders become empty assistant
    /// messages, so a restored history never shows a stuck spinner row.
    pub fn normalized_for_storage(&self) -> (r: Message)
        ensures
            r@ == stored(self@),
    {
        if self.pending {
            let m = Message::assistant("");
            proof {
                reveal_strlit("");
                assert(m@.markdown =~= Seq::empty());
            }
            m
        } else {
            self.clone()
        }
    }
}

impl Clone for Message {
    fn clone(&self) -> (r: Message)
        ensures
            r@ == self@,
    {
        Message { role: self.role, markdown: self.markdown.clone(), pending: self.pending }
    }
}

/// A stored message is never pending, and storing it again changes nothing.
pub proof fn law_storage_form(m: MessageView)
    ensures
        !stored(m).pending,
        stored(stored(m)) == stored(m),
        !m.pending ==> stored(m) == m,
{
}

/// What a list of messages holds.
pub open spec fn message_views(v: Seq<Message>) -> Seq<MessageView> {
    Seq::new(v.len(), |i: int| v[i]@)
}

/// Per-chat request lifecycle: at most one request is in flight per chat.
#[derive(Debug, PartialEq, Eq)]
pub enum ChatLifecycle {
    /// Nothing in flight and nothing queued for this chat.
    Idle,
    /// Request handed to the backend; `running` status not seen yet.
    Awaiting { request_id: String },
    /// Backend confirmed it is processing the request.
    Running { request_id: String },
}

impl Default for ChatLifecycle {
    fn default() -> (r: ChatLifecycle)
        ensures
            r is Idle,
    {
        ChatLifecycle::Idle
    }
}

impl ChatLifecycle {
    /// The id of the request in flight.
    pub open spec fn in_flight(&self) -> Option<Seq<char>> {
        match self {
            ChatLifecycle::Idle => None,
            ChatLifecycle::Awaiting { request_id } => Some(request_id@),
            ChatLifecycle::Running { request_id } => Some(request_id@),
        }
    }

    /// Protocol request id tracked by this lifecycle, if any.
    pub fn request_id(&self) -> (r: Option<&str>)
        ensures
            match r {
                Some(id) => self.in_flight() == Some(id@),
                None => self.in_flight() is None,
            },
    {
        match self {
            ChatLifecycle::Idle => None,
            ChatLifecycle::Awaiting { request_id } => Some(request_id.as_str()),
            ChatLifecycle::Running { request_id } => Some(request_id.as_str()),
        }
    }

    /// True while a request is in flight (either phase).
    pub fn is_busy(&self) -> (r: bool)
        ensures
            r == (self.in_flight() is Some),
    {
        !matches!(self, ChatLifecycle::Idle)
    }
}

/// A message keeps its text and who wrote it; a chat is busy while a request is
/// on its way, whether or not the backend works on it yet.
pub proof fn law_messages_and_requests(markdown: Seq<char>, id: String)
    ensures
        user_message(markdown).role is User && user_message(markdown).markdown == markdown
            && !user_message(markdown).pending,
        assistant_message(markdown).role is Assistant && assistant_message(markdown).markdown
            == markdown && !assistant_message(markdown).pending,
        (ChatLifecycle::Awaiting { request_id: id }).in_flight() == Some(id@),
        (ChatLifecycle::Running { request_id: id }).in_flight() == Some(id@),
        ChatLifecycle::Idle.in_flight() is None,
{
}

/// A placeholder is stored as an empty answer, so that it never waits again after
/// a restart.
pub proof fn law_placeholder_is_stored_empty(m: MessageView)
    requires
        m.pending,
    ensures
        stored(m).role is Assistant,
        stored(m).markdown.len() == 0,
        !stored(m).pending,
{
}

} // verus!
