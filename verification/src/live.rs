//! Between the request pipeline and the screen: what is asked of the backend
//! for one submission, and which events the screen gets back.
//!
//! A submission yields progress events, then exactly one terminal event, then
//! one drain signal for its chat. Subagent progress may go on after that, until
//! the backend retires the request's counter.

use std::collections::hash_map::DefaultHasher;
use std::hash::{Hash, Hasher};
use vstd::prelude::*;
use vstd::std_specs::hash::DefaultHasherAdditionalSpecFns;
use crate::app::Submitted;
use crate::frame_text::frame_string;
use crate::protocol::{AgentEventKind, ErrorCode, ServerMessage, StatusState, Usage};
use crate::request_pipeline::{
    AgentEventUpdate, BackendError, Delivery, RequestArgs, StatusUpdate,
};
use crate::{frame_text, text};

verus! {

/// What the screen hears from the backend.
#[derive(Debug, PartialEq, Eq)]
pub enum BackendEvent {
    Queued { request_id: u64, thread_id: String },
    Running { request_id: u64, thread_id: String },
    /// Subagent progress.
    AgentProgress {
        request_id: u64,
        thread_id: String,
        event: AgentEventKind,
        active: u64,
        total: u64,
    },
    /// The answer; terminal for its request.
    Result {
        request_id: u64,
        markdown: String,
        thread_id: String,
        model: Option<String>,
        usage: Option<Usage>,
        thoughts: Option<String>,
    },
    /// A failure; terminal for its request.
    Error { request_id: u64, message: String, thread_id: Option<String> },
    /// The chat may start its next queued prompt.
    QueueDrain { thread_id: String },
    /// A continuation answer, outside any request.
    BackgroundMessage {
        wire_thread_id: i64,
        markdown: String,
        model: Option<String>,
        thoughts: Option<String>,
    },
    /// The working directory of a thread.
    CwdUpdate { wire_thread_id: i64, cwd: String },
}

impl BackendEvent {
    /// Whether the event ends its request.
    pub open spec fn terminal(self) -> bool {
        self is Result || self is Error
    }
}

/// A name for what a text feeds to a hasher.
pub uninterp spec fn hash_input(text: Seq<char>) -> Seq<Seq<u8>>;

/// `Hash::hash` of `str`, into the default hasher: feeds it what depends on the
/// text alone.
#[verifier::external_body]
fn hash_text(text: &str, hasher: &mut DefaultHasher)
    ensures
        final(hasher)@ == old(hasher)@ + hash_input(text@),
{
    text.hash(hasher);
}

/// The number that stands for a chat on the wire: the default hash of its id,
/// without the sign bit.
pub open spec fn wire_id(chat_uuid: Seq<char>) -> i64 {
    (DefaultHasher::spec_finish(hash_input(chat_uuid)) & 0x7FFF_FFFF_FFFF_FFFF) as i64
}

/// Deterministic form of a chat's stable id for the wire. Never negative.
pub fn wire_thread_id(chat_uuid: &str) -> (r: i64)
    ensures
        r == wire_id(chat_uuid@),
        r >= 0,
{
    let mut hasher = DefaultHasher::new();
    hash_text(chat_uuid, &mut hasher);
    assert(hasher@ =~= hash_input(chat_uuid@));
    let h = hasher.finish();
    assert(0 <= (h & 0x7FFF_FFFF_FFFF_FFFF) as i64) by (bit_vector);
    (h & 0x7FFF_FFFF_FFFF_FFFF) as i64
}

/// A numeric stand-in for a submission's request id.
pub fn submitted_event_id(submitted: &Submitted) -> (r: u64)
    ensures
        r == wire_id(submitted.request_id@) as int,
{
    wire_thread_id(submitted.request_id.as_str()) as u64
}

/// The request that a submission puts on the wire.
pub fn request_args(submitted: &Submitted) -> (r: RequestArgs)
    ensures
        r.request_id@ == submitted.request_id@,
        r.thread_id == wire_id(submitted.thread_id@),
        r.prompt@ == submitted.prompt@,
        r.active_file is None,
        r.selection is None,
        r.cursor_position is None,
        r.language_id is None,
{
    RequestArgs::new(
        submitted.request_id.as_str(),
        wire_thread_id(submitted.thread_id.as_str()),
        submitted.prompt.as_str(),
    )
}

/// A label without the white space around it; one that holds nothing else is no
/// label.
pub open spec fn clean_label(label: Option<Seq<char>>) -> Option<Seq<char>> {
    match label {
        Some(l) if text::trim(l).len() > 0 => Some(text::trim(l)),
        _ => None,
    }
}

/// The label of an answer: the model's name, else the provider's.
pub open spec fn model_label(model: Option<Seq<char>>, provider: Option<Seq<char>>) -> Option<
    Seq<char>,
> {
    match clean_label(model) {
        Some(m) => Some(m),
        None => clean_label(provider),
    }
}

/// A label without the white space around it, if anything is left.
pub(crate) fn clean(label: Option<&str>) -> (r: Option<String>)
    ensures
        text::optional(r) == clean_label(text::optional_str(label)),
{
    match label {
        Some(l) => {
            let trimmed = text::trimmed(l);
            if trimmed.as_str().is_empty() {
                None
            } else {
                Some(trimmed)
            }
        },
        None => None,
    }
}

/// Picks the label of an answer. A model wins over a provider; white space
/// alone counts as absent.
pub fn resolve_model_label(model: Option<&str>, provider: Option<&str>) -> (r: Option<String>)
    ensures
        text::optional(r) == model_label(text::optional_str(model), text::optional_str(provider)),
{
    match clean(model) {
        Some(m) => Some(m),
        None => clean(provider),
    }
}

impl BackendError {
    /// The error in words.
    pub open spec fn words(self) -> Seq<char> {
        match self {
            BackendError::Spawn { program, reason } => "failed to start "@ + program@ + (": "@
                + reason@),
            BackendError::UnexpectedExit { status } => "backend exited unexpectedly"@,
            BackendError::Io(reason) => "backend I/O error: "@ + reason@,
            BackendError::RequestFailed { request_id, code, message } => message@,
            BackendError::UnknownRequest { request_id } => "unknown request: "@ + request_id@,
            BackendError::Broken(reason) => "backend connection broken: "@ + reason@,
        }
    }

    /// The error in words.
    pub fn to_text(&self) -> (r: String)
        ensures
            r@ == self.words(),
    {
        match self {
            BackendError::Spawn { program, reason } => {
                let why = text::concat(": ", reason.as_str());
                text::concat3("failed to start ", program.as_str(), why.as_str())
            },
            BackendError::UnexpectedExit { .. } => text::owned("backend exited unexpectedly"),
            BackendError::Io(reason) => text::concat("backend I/O error: ", reason.as_str()),
            BackendError::RequestFailed { message, .. } => text::owned(message.as_str()),
            BackendError::UnknownRequest { request_id } => text::concat(
                "unknown request: ",
                request_id.as_str(),
            ),
            BackendError::Broken(reason) => text::concat(
                "backend connection broken: ",
                reason.as_str(),
            ),
        }
    }
}

/// What the user reads of a failed request.
pub open spec fn failure_words(e: BackendError) -> Seq<char> {
    match e {
        BackendError::RequestFailed { code, message, .. } => if code == ErrorCode::Cancelled {
            "Cancelled"@
        } else {
            "Request failed ("@ + code.label() + ("): "@ + message@)
        },
        _ => e.words(),
    }
}

/// What the user reads of a failed request; a cancellation is just that.
pub fn render_pipeline_error(e: &BackendError) -> (r: String)
    ensures
        r@ == failure_words(*e),
{
    match e {
        BackendError::RequestFailed { code, message, .. } => match code {
            ErrorCode::Cancelled => text::owned("Cancelled"),
            _ => {
                let tail = text::concat("): ", message.as_str());
                text::concat3("Request failed (", code.as_label(), tail.as_str())
            },
        },
        _ => e.to_text(),
    }
}

/// The prefix of the complaint about a final frame that is no answer.
pub const UNEXPECTED_FRAME: &'static str = "unexpected final frame from backend: ";

/// Whether `event` is the terminal event for `outcome`; `None` is a lost
/// connection. A final frame that is no answer is quoted in the complaint.
pub open spec fn tells(
    event: BackendEvent,
    outcome: Option<Result<ServerMessage, BackendError>>,
    event_id: u64,
    thread_id: Seq<char>,
) -> bool {
    match outcome {
        Some(Ok(ServerMessage::Result { content, model, provider, usage, thoughts, .. })) => {
            event matches BackendEvent::Result {
                request_id,
                markdown,
                thread_id: t,
                model: label,
                usage: u,
                thoughts: th,
            } && request_id == event_id && markdown == content && t@ == thread_id
                && text::optional(label) == model_label(
                text::optional(model),
                text::optional(provider),
            ) && u == usage && th == thoughts
        },
        Some(Ok(other)) => event matches BackendEvent::Error { request_id, message, thread_id: t }
            && request_id == event_id && text::optional(t) == Some(thread_id)
            && message@ == UNEXPECTED_FRAME@ + frame_text::frame_text(other),
        Some(Err(e)) => event matches BackendEvent::Error { request_id, message, thread_id: t }
            && request_id == event_id && text::optional(t) == Some(thread_id) && message@
            == failure_words(e),
        None => event matches BackendEvent::Error { request_id, message, thread_id: t }
            && request_id == event_id && text::optional(t) == Some(thread_id) && message@
            == "backend connection lost"@,
    }
}

/// Turns the final outcome of a request into its terminal event; `None` is a
/// lost connection.
pub fn terminal_event(
    outcome: Option<Result<ServerMessage, BackendError>>,
    event_id: u64,
    thread_id: String,
) -> (r: BackendEvent)
    ensures
        r.terminal(),
        tells(r, outcome, event_id, thread_id@),
{
    match outcome {
        Some(Ok(frame)) => match frame {
            ServerMessage::Result { content, model, provider, usage, thoughts, .. } => {
                let label = resolve_model_label(
                    match &model {
                        Some(m) => Some(m.as_str()),
                        None => None,
                    },
                    match &provider {
                        Some(p) => Some(p.as_str()),
                        None => None,
                    },
                );
                BackendEvent::Result {
                    request_id: event_id,
                    markdown: content,
                    thread_id,
                    model: label,
                    usage,
                    thoughts,
                }
            },
            other => BackendEvent::Error {
                request_id: event_id,
                message: text::concat(UNEXPECTED_FRAME, frame_string(&other).as_str()),
                thread_id: Some(thread_id),
            },
        },
        Some(Err(e)) => BackendEvent::Error {
            request_id: event_id,
            message: render_pipeline_error(&e),
            thread_id: Some(thread_id),
        },
        None => BackendEvent::Error {
            request_id: event_id,
            message: text::owned("backend connection lost"),
            thread_id: Some(thread_id),
        },
    }
}

/// Whether `events` end a request of the chat `thread_id`: one terminal event
/// of that chat, then the drain signal for it.
pub open spec fn ends_then_drains(events: Seq<BackendEvent>, thread_id: Seq<char>) -> bool {
    &&& events.len() == 2
    &&& events[0].terminal()
    &&& match events[0] {
        BackendEvent::Result { thread_id: t, .. } => t@ == thread_id,
        BackendEvent::Error { thread_id: t, .. } => text::optional(t) == Some(thread_id),
        _ => false,
    }
    &&& events[1] matches BackendEvent::QueueDrain { thread_id: t } && t@ == thread_id
}

/// The last events of a submission that was sent: its terminal event, then the
/// drain signal.
pub fn closing_events(
    outcome: Option<Result<ServerMessage, BackendError>>,
    event_id: u64,
    thread_id: String,
) -> (r: Vec<BackendEvent>)
    ensures
        ends_then_drains(r@, thread_id@),
        tells(r@[0], outcome, event_id, thread_id@),
{
    let drain = BackendEvent::QueueDrain { thread_id: thread_id.clone() };
    let mut events: Vec<BackendEvent> = Vec::new();
    events.push(terminal_event(outcome, event_id, thread_id));
    events.push(drain);
    events
}

/// The events of a submission that could not be sent: the failure, then the
/// drain signal.
pub fn send_failed_events(error: &BackendError, event_id: u64, thread_id: String) -> (r: Vec<
    BackendEvent,
>)
    ensures
        ends_then_drains(r@, thread_id@),
        r@[0] matches BackendEvent::Error { request_id, message, .. } && request_id == event_id
            && message@ == error.words(),
{
    let drain = BackendEvent::QueueDrain { thread_id: thread_id.clone() };
    let mut events: Vec<BackendEvent> = Vec::new();
    events.push(
        BackendEvent::Error {
            request_id: event_id,
            message: error.to_text(),
            thread_id: Some(thread_id),
        },
    );
    events.push(drain);
    events
}

/// What a status update means to the request `request_id`: an event, unless it
/// belongs to another request.
pub fn pump_statuses(update: &StatusUpdate, request_id: &str, thread_id: &str, event_id: u64) -> (r:
    Option<BackendEvent>)
    ensures
        r is Some <==> update.request_id.0@ == request_id@,
        r matches Some(event) ==> match update.state {
            StatusState::Queued => event matches BackendEvent::Queued { request_id: i, thread_id: t }
                && i == event_id && t@ == thread_id@,
            StatusState::Running => event matches BackendEvent::Running {
                request_id: i,
                thread_id: t,
            } && i == event_id && t@ == thread_id@,
        },
{
    if !text::same_text(update.request_id.0.as_str(), request_id) {
        return None;
    }
    Some(
        match update.state {
            StatusState::Queued => BackendEvent::Queued {
                request_id: event_id,
                thread_id: text::owned(thread_id),
            },
            StatusState::Running => BackendEvent::Running {
                request_id: event_id,
                thread_id: text::owned(thread_id),
            },
        },
    )
}

/// What a subagent update means to the request `request_id`: an event, unless
/// it belongs to another request, and whether the backend thereby retires the
/// request's counter.
pub fn pump_agent_events(
    update: &AgentEventUpdate,
    request_id: &str,
    thread_id: &str,
    event_id: u64,
) -> (r: (Option<BackendEvent>, bool))
    ensures
        r.0 is Some <==> update.request_id@ == request_id@,
        r.0 matches Some(event) ==> event matches BackendEvent::AgentProgress {
            request_id: i,
            thread_id: t,
            event: kind,
            active,
            total,
        } && i == event_id && t@ == thread_id@ && kind == update.event && active == update.active
            && total == update.total,
        r.1 <==> update.request_id@ == request_id@ && update.event == AgentEventKind::Finished
            && update.active == 0,
{
    if !text::same_text(update.request_id.as_str(), request_id) {
        return (None, false);
    }
    let event = BackendEvent::AgentProgress {
        request_id: event_id,
        thread_id: text::owned(thread_id),
        event: update.event,
        active: update.active,
        total: update.total,
    };
    let finished = match update.event {
        AgentEventKind::Finished => true,
        AgentEventKind::Started => false,
    };
    (Some(event), finished && update.active == 0)
}

/// What a delivery outside any request means to the screen: a continuation
/// answer or a working directory.
pub fn session_event(delivery: Delivery) -> (r: Option<BackendEvent>)
    ensures
        match delivery {
            Delivery::Background { thread_id, content, model, provider, thoughts } => {
                r matches Some(
                    BackendEvent::BackgroundMessage {
                        wire_thread_id: id,
                        markdown,
                        model: label,
                        thoughts: th,
                    },
                ) && id == thread_id && markdown == content && text::optional(label)
                    == model_label(text::optional(model), text::optional(provider)) && th
                    == thoughts
            },
            Delivery::Cwd { thread_id, cwd } => r == Some(
                BackendEvent::CwdUpdate { wire_thread_id: thread_id, cwd },
            ),
            _ => r is None,
        },
{
    match delivery {
        Delivery::Background { thread_id, content, model, provider, thoughts } => {
            let label = resolve_model_label(
                match &model {
                    Some(m) => Some(m.as_str()),
                    None => None,
                },
                match &provider {
                    Some(p) => Some(p.as_str()),
                    None => None,
                },
            );
            Some(
                BackendEvent::BackgroundMessage {
                    wire_thread_id: thread_id,
                    markdown: content,
                    model: label,
                    thoughts,
                },
            )
        },
        Delivery::Cwd { thread_id, cwd } => Some(
            BackendEvent::CwdUpdate { wire_thread_id: thread_id, cwd },
        ),
        _ => None,
    }
}

/// The event of an answer carries the frame's own content, usage and thoughts to
/// the chat that asked, under the id that it asked with.
pub proof fn law_answer_comes_through(
    event: BackendEvent,
    outcome: Option<Result<ServerMessage, BackendError>>,
    event_id: u64,
    thread_id: Seq<char>,
)
    requires
        tells(event, outcome, event_id, thread_id),
        outcome matches Some(Ok(m)) && m is Result,
    ensures
        event is Result,
        event->Result_request_id == event_id,
        event->Result_thread_id@ == thread_id,
        event->Result_markdown == outcome->0->Ok_0->Result_content,
        event->usage == outcome->0->Ok_0->usage,
        event->Result_thoughts == outcome->0->Ok_0->Result_thoughts,
{
}

/// Every other outcome is an error event for the chat that asked.
pub proof fn law_failure_comes_through(
    event: BackendEvent,
    outcome: Option<Result<ServerMessage, BackendError>>,
    event_id: u64,
    thread_id: Seq<char>,
)
    requires
        tells(event, outcome, event_id, thread_id),
        !(outcome matches Some(Ok(m)) && m is Result),
    ensures
        event is Error,
        event->Error_request_id == event_id,
        event->Error_thread_id matches Some(t) && t@ == thread_id,
        outcome is None ==> event->message@ == "backend connection lost"@,
        outcome matches Some(Err(BackendError::RequestFailed { code, message, .. })) ==> (code
            == ErrorCode::Cancelled ==> event->message@ == "Cancelled"@) && (code
            != ErrorCode::Cancelled ==> event->message@ == "Request failed ("@ + code.label() + (
        "): "@ + message@)),
{
}

/// The label of an answer is the model's name where it has one, else the
/// provider's, without white space at its ends; white space alone is no name.
pub proof fn law_model_wins_over_provider(model: Option<Seq<char>>, provider: Option<Seq<char>>)
    ensures
        model matches Some(m) ==> text::trim(m).len() > 0 ==> model_label(model, provider) == Some(
            text::trim(m),
        ),
        (model is None || text::trim(model->0).len() == 0) ==> (provider matches Some(p)
            ==> text::trim(p).len() > 0 ==> model_label(model, provider) == Some(text::trim(p))),
        (model is None || text::trim(model->0).len() == 0) && (provider is None || text::trim(
            provider->0,
        ).len() == 0) ==> model_label(model, provider) is None,
{
}

/// Every error in words tells what it is about.
pub proof fn law_errors_name_their_cause(e: BackendError)
    ensures
        match e {
            BackendError::Spawn { program, reason } => e.words() == "failed to start "@ + program@
                + (": "@ + reason@),
            BackendError::UnexpectedExit { .. } => e.words() == "backend exited unexpectedly"@,
            BackendError::Io(reason) => e.words() == "backend I/O error: "@ + reason@,
            BackendError::RequestFailed { message, .. } => e.words() == message@,
            BackendError::UnknownRequest { request_id } => e.words() == "unknown request: "@
                + request_id@,
            BackendError::Broken(reason) => e.words() == "backend connection broken: "@ + reason@,
        },
        !(e is RequestFailed) ==> failure_words(e) == e.words(),
{
}

/// A chat's number on the wire is its hash without the sign bit: never negative,
/// and equal to the hash in every other bit.
pub proof fn law_wire_id_is_the_hash(chat_uuid: Seq<char>)
    ensures
        wire_id(chat_uuid) >= 0,
        wire_id(chat_uuid) as int == DefaultHasher::spec_finish(hash_input(chat_uuid)) as int
            % 0x8000_0000_0000_0000,
{
    let h: u64 = DefaultHasher::spec_finish(hash_input(chat_uuid));
    assert(0 <= (h & 0x7FFF_FFFF_FFFF_FFFF) as i64 && (h & 0x7FFF_FFFF_FFFF_FFFF) as i64 as u64
        == h % 0x8000_0000_0000_0000) by (bit_vector);
    let w = wire_id(chat_uuid);
    assert(w as u64 == h % 0x8000_0000_0000_0000);
    assert(w as u64 as int == w as int);
}

/// A request ends with one final event and then one signal to go on, both for the
/// chat that asked.
pub proof fn law_end_then_go_on(events: Seq<BackendEvent>, thread_id: Seq<char>)
    requires
        ends_then_drains(events, thread_id),
    ensures
        events.len() == 2,
        events[0] is Result || events[0] is Error,
        events[0] is Result ==> events[0]->Result_thread_id@ == thread_id,
        events[0] is Error ==> (events[0]->Error_thread_id matches Some(t) && t@ == thread_id),
        events[1] matches BackendEvent::QueueDrain { thread_id: t } && t@ == thread_id,
{
}

/// A status of a request reaches the chat that asked, under the id that it asked
/// with; a status of any other request reaches it never.
pub proof fn law_status_reaches_its_chat(
    update: &StatusUpdate,
    request_id: &str,
    thread_id: &str,
    event_id: u64,
    r: Option<BackendEvent>,
)
    requires
        call_ensures(pump_statuses, (update, request_id, thread_id, event_id), r),
    ensures
        update.request_id.0@ != request_id@ ==> r is None,
        update.request_id.0@ == request_id@ && update.state == StatusState::Running ==> (r matches Some(
            BackendEvent::Running { request_id: i, thread_id: t },
        ) && i == event_id && t@ == thread_id@),
        update.request_id.0@ == request_id@ && update.state == StatusState::Queued ==> (r matches Some(
            BackendEvent::Queued { request_id: i, thread_id: t },
        ) && i == event_id && t@ == thread_id@),
{
}

/// News of subagents reach the chat that asked with their own numbers, and the
/// last one to finish ends them.
pub proof fn law_progress_reaches_its_chat(
    update: &AgentEventUpdate,
    request_id: &str,
    thread_id: &str,
    event_id: u64,
    r: (Option<BackendEvent>, bool),
)
    requires
        call_ensures(pump_agent_events, (update, request_id, thread_id, event_id), r),
    ensures
        update.request_id@ != request_id@ ==> r.0 is None && !r.1,
        update.request_id@ == request_id@ ==> {
            &&& r.0 matches Some(
                BackendEvent::AgentProgress { request_id: i, thread_id: t, event, active, total },
            ) && i == event_id && t@ == thread_id@ && event == update.event && active
                == update.active && total == update.total
            &&& r.1 <==> (update.event == AgentEventKind::Finished && update.active == 0)
        },
{
}

/// What comes unasked goes to the thread that it names, with its own text.
pub proof fn law_session_news_come_through(delivery: Delivery, r: Option<BackendEvent>)
    requires
        call_ensures(session_event, (delivery,), r),
    ensures
        delivery matches Delivery::Background { thread_id, content, model, provider, thoughts } ==> {
            r matches Some(
                BackendEvent::BackgroundMessage {
                    wire_thread_id: id,
                    markdown,
                    model: label,
                    thoughts: th,
                },
            ) && id == thread_id && markdown == content && th == thoughts && text::optional(label)
                == model_label(text::optional(model), text::optional(provider))
        },
        delivery matches Delivery::Cwd { thread_id, cwd } ==> (r matches Some(
            BackendEvent::CwdUpdate { wire_thread_id: id, cwd: dir },
        ) && id == thread_id && dir == cwd),
        !(delivery is Background) && !(delivery is Cwd) ==> r is None,
{
}

/// A submission goes on the wire with its own id and prompt, on its own thread,
/// and its events come back under the number of its id.
pub proof fn law_submission_goes_on_the_wire(submitted: &Submitted, r: RequestArgs, id: u64)
    requires
        call_ensures(request_args, (submitted,), r),
        call_ensures(submitted_event_id, (submitted,), id),
    ensures
        r.request_id@ == submitted.request_id@,
        r.prompt@ == submitted.prompt@,
        r.thread_id == wire_id(submitted.thread_id@),
        id == wire_id(submitted.request_id@) as int,
{
}

/// The last events of a request are its outcome and the signal to go on, and so
/// they are where it could not be sent.
pub proof fn law_every_request_ends(
    outcome: Option<Result<ServerMessage, BackendError>>,
    error: &BackendError,
    event_id: u64,
    thread_id: String,
    closing: Vec<BackendEvent>,
    failed: Vec<BackendEvent>,
)
    requires
        call_ensures(closing_events, (outcome, event_id, thread_id), closing),
        call_ensures(send_failed_events, (error, event_id, thread_id), failed),
    ensures
        closing@.len() == 2 && failed@.len() == 2,
        closing@[1] matches BackendEvent::QueueDrain { thread_id: t } && t@ == thread_id@,
        failed@[1] matches BackendEvent::QueueDrain { thread_id: t } && t@ == thread_id@,
        failed@[0] matches BackendEvent::Error { request_id, message, thread_id: t } && request_id
            == event_id && message@ == error.words() && (t matches Some(s) && s@ == thread_id@),
        outcome matches Some(Ok(ServerMessage::Result { content, usage, thoughts, .. })) ==> (
        closing@[0] matches BackendEvent::Result {
            request_id,
            markdown,
            thread_id: t,
            usage: u,
            thoughts: th,
            ..
        } && request_id == event_id && markdown == content && t@ == thread_id@ && u == usage && th
            == thoughts),
        !(outcome matches Some(Ok(m)) && m is Result) ==> closing@[0] is Error,
{
}

} // verus!
