//! Request correlation: which request a server frame belongs to, and what the
//! pipeline does with every command and frame.
//!
//! * every request in flight has one entry, under its id;
//! * status, subagent, continuation and working-directory frames never resolve
//!   a request;
//! * a cancel is targeted: an unknown id never reaches the wire;
//! * when the pipe breaks, every request in flight fails, and further requests
//!   are refused until a reconnect.

use vstd::prelude::*;
use crate::protocol::{
    AgentEventKind, ClientMessage, CursorPosition, ErrorCode, Selection, ServerMessage,
    StatusState,
};
use crate::text;

verus! {

/// Coarse lifecycle update of a request.
#[derive(Debug, PartialEq, Eq)]
pub struct StatusUpdate {
    pub request_id: StatusRequestId,
    pub state: StatusState,
}

/// A request id, opaque to consumers of the status stream.
#[derive(Debug, PartialEq, Eq)]
pub struct StatusRequestId(pub String);

impl StatusUpdate {
    /// The update as `id: state`.
    pub fn to_text(&self) -> (r: String)
        ensures
            r@ == self.request_id.0@ + ": "@ + self.state.name(),
    {
        text::concat3(self.request_id.0.as_str(), ": ", self.state.as_str())
    }
}

/// Subagent progress of a request.
#[derive(Debug, PartialEq, Eq)]
pub struct AgentEventUpdate {
    pub request_id: String,
    pub event: AgentEventKind,
    pub active: u64,
    pub total: u64,
}

/// A request ready to be sent. The workspace root comes from the pipeline's
/// configuration.
#[derive(Debug)]
pub struct RequestArgs {
    pub request_id: String,
    pub thread_id: i64,
    pub prompt: String,
    pub active_file: Option<String>,
    pub selection: Option<Selection>,
    pub cursor_position: Option<CursorPosition>,
    pub language_id: Option<String>,
}

impl RequestArgs {
    /// Minimal request: id, thread and prompt.
    pub fn new(request_id: &str, thread_id: i64, prompt: &str) -> (r: RequestArgs)
        ensures
            r.request_id@ == request_id@,
            r.thread_id == thread_id,
            r.prompt@ == prompt@,
            r.active_file is None,
            r.selection is None,
            r.cursor_position is None,
            r.language_id is None,
    {
        RequestArgs {
            request_id: text::owned(request_id),
            thread_id,
            prompt: text::owned(prompt),
            active_file: None,
            selection: None,
            cursor_position: None,
            language_id: None,
        }
    }

    pub fn active_file(self, path: &str) -> (r: RequestArgs)
        ensures
            r.active_file matches Some(p) && p@ == path@,
            r == (RequestArgs { active_file: r.active_file, ..self }),
    {
        RequestArgs { active_file: Some(text::owned(path)), ..self }
    }

    pub fn selection(self, selection: Selection) -> (r: RequestArgs)
        ensures
            r == (RequestArgs { selection: Some(selection), ..self }),
    {
        RequestArgs { selection: Some(selection), ..self }
    }

    pub fn cursor_position(self, position: CursorPosition) -> (r: RequestArgs)
        ensures
            r == (RequestArgs { cursor_position: Some(position), ..self }),
    {
        RequestArgs { cursor_position: Some(position), ..self }
    }

    pub fn language_id(self, language: &str) -> (r: RequestArgs)
        ensures
            r.language_id matches Some(l) && l@ == language@,
            r == (RequestArgs { language_id: r.language_id, ..self }),
    {
        RequestArgs { language_id: Some(text::owned(language)), ..self }
    }
}

/// Failures of the backend link.
#[derive(Debug, PartialEq, Eq)]
pub enum BackendError {
    /// The backend program could not be started.
    Spawn { program: String, reason: String },
    /// The backend exited with this status.
    UnexpectedExit { status: i32 },
    /// Reading or writing failed.
    Io(String),
    /// The backend answered a request with an error.
    RequestFailed { request_id: Option<String>, code: ErrorCode, message: String },
    /// No request in flight has this id.
    UnknownRequest { request_id: String },
    /// The pipe to the backend is broken.
    Broken(String),
}

/// The error of a handle whose pipeline has stopped.
pub fn actor_gone() -> (r: BackendError)
    ensures
        r matches BackendError::Broken(reason) && reason@ == "pipeline actor stopped"@,
{
    BackendError::Broken(text::owned("pipeline actor stopped"))
}

/// What the correlation table holds.
#[verifier::ext_equal]
pub struct CorrelationView {
    /// The ids of the requests in flight, oldest first.
    pub pending: Seq<Seq<char>>,
    /// Why the pipe is broken, if it is.
    pub broken: Option<Seq<char>>,
}

impl CorrelationView {
    /// No request is in flight twice.
    pub open spec fn well_formed(self) -> bool {
        self.pending.no_duplicates()
    }

    /// The table of a pipe that broke for `reason`: no request is in flight.
    pub open spec fn broken_for(reason: Seq<char>) -> CorrelationView {
        CorrelationView { pending: Seq::empty(), broken: Some(reason) }
    }

    /// The table once a fresh backend is up.
    pub open spec fn reconnected(self) -> CorrelationView {
        CorrelationView { broken: None, ..self }
    }

    /// Whether a request `id` may be sent.
    pub open spec fn admits_send(self, id: Seq<char>) -> bool {
        self.broken is None && !self.pending.contains(id)
    }

    /// Whether a cancel of `id` may be sent.
    pub open spec fn admits_cancel(self, id: Seq<char>) -> bool {
        self.broken is None && self.pending.contains(id)
    }

    /// Without the request `id`.
    pub open spec fn without(self, id: Seq<char>) -> CorrelationView {
        CorrelationView { pending: self.pending.remove_value(id), broken: self.broken }
    }
}

/// The pipeline's correlation table.
#[derive(Debug)]
pub struct Correlation {
    pending: Vec<String>,
    broken_reason: Option<String>,
}

impl View for Correlation {
    type V = CorrelationView;

    closed spec fn view(&self) -> CorrelationView {
        CorrelationView {
            pending: text::texts(self.pending@),
            broken: match self.broken_reason {
                Some(reason) => Some(reason@),
                None => None,
            },
        }
    }
}

/// How writing a frame went.
#[derive(Debug)]
pub enum FrameWrite {
    Written,
    /// The frame has no JSON form.
    NotSerialized(String),
    /// The backend's input is closed already.
    Closed,
    /// Writing failed.
    Failed(String),
}

/// What to do with a request that is to be sent.
#[derive(Debug)]
pub enum SendStep {
    /// The pipe is broken: fail the request's own receiver and the call.
    Broken(String),
    /// Another request in flight has this id: fail the call alone.
    Duplicate(BackendError),
    /// Write this frame, then register the request.
    Write(ClientMessage),
}

/// What to do with a cancel.
#[derive(Debug)]
pub enum CancelStep {
    Refused(BackendError),
    /// Write this frame.
    Write(ClientMessage),
}

/// Where a server frame goes.
#[derive(Debug)]
pub enum Delivery {
    /// To the subscribers of the status stream.
    Status(StatusUpdate),
    /// To the subscribers of the subagent stream.
    Agent(AgentEventUpdate),
    /// To the thread that a continuation answer belongs to.
    Background {
        thread_id: i64,
        content: String,
        model: Option<String>,
        provider: Option<String>,
        thoughts: Option<String>,
    },
    /// To the thread whose working directory it names.
    Cwd { thread_id: i64, cwd: String },
    /// To the request `request_id`, as its final outcome.
    Resolve { request_id: String, outcome: Result<ServerMessage, BackendError> },
    /// Nowhere.
    Dropped,
}

/// The id of the request that a frame ends, if any.
pub open spec fn ends_request(msg: ServerMessage) -> Option<Seq<char>> {
    match msg {
        ServerMessage::Result { request_id, .. } => Some(request_id@),
        ServerMessage::Error { request_id: Some(id), .. } => Some(id@),
        _ => None,
    }
}

/// The table after a frame.
pub open spec fn after_frame(table: CorrelationView, msg: ServerMessage) -> CorrelationView {
    match ends_request(msg) {
        Some(id) if table.pending.contains(id) => table.without(id),
        _ => table,
    }
}

/// Where a frame goes, under a table.
pub open spec fn delivery(table: CorrelationView, msg: ServerMessage) -> Delivery {
    match msg {
        ServerMessage::Status { request_id, state } => Delivery::Status(
            StatusUpdate { request_id: StatusRequestId(request_id), state },
        ),
        ServerMessage::AgentEvent { request_id, event, active, total, .. } => Delivery::Agent(
            AgentEventUpdate { request_id, event, active, total },
        ),
        ServerMessage::Message { thread_id, content, model, provider, thoughts } => {
            Delivery::Background { thread_id, content, model, provider, thoughts }
        },
        ServerMessage::CwdUpdate { thread_id, cwd } => Delivery::Cwd { thread_id, cwd },
        ServerMessage::Result { request_id, .. } => if table.pending.contains(request_id@) {
            Delivery::Resolve { request_id, outcome: Ok(msg) }
        } else {
            Delivery::Dropped
        },
        ServerMessage::Error { request_id: Some(id), code, message, .. } => {
            if table.pending.contains(id@) {
                Delivery::Resolve {
                    request_id: id,
                    outcome: Err(
                        BackendError::RequestFailed { request_id: Some(id), code, message },
                    ),
                }
            } else {
                Delivery::Dropped
            }
        },
        ServerMessage::Error { request_id: None, .. } => Delivery::Dropped,
        ServerMessage::Ready { .. } => Delivery::Dropped,
    }
}

impl Correlation {
    /// A table without requests, over a live pipe.
    pub fn new() -> (r: Correlation)
        ensures
            r@ == (CorrelationView { pending: Seq::empty(), broken: None }),
            r@.well_formed(),
    {
        let r = Correlation { pending: Vec::new(), broken_reason: None };
        assert(text::texts(r.pending@) =~= Seq::empty());
        r
    }

    fn position(&self, id: &str) -> (r: Option<usize>)
        ensures
            match r {
                Some(i) => i < self@.pending.len() && self@.pending[i as int] == id@,
                None => !self@.pending.contains(id@),
            },
            self@.pending.len() == self.pending@.len(),
    {
        let mut i: usize = 0;
        while i < self.pending.len()
            invariant
                i <= self.pending@.len(),
                forall|k: int| 0 <= k < i ==> #[trigger] self@.pending[k] != id@,
            decreases self.pending@.len() - i,
        {
            assert(self@.pending[i as int] == self.pending@[i as int]@);
            if text::same_text(self.pending[i].as_str(), id) {
                return Some(i);
            }
            i += 1;
        }
        None
    }

    /// Whether the request `id` is in flight.
    pub fn is_pending(&self, id: &str) -> (r: bool)
        ensures
            r == self@.pending.contains(id@),
    {
        self.position(id).is_some()
    }

    /// Why the pipe is broken, if it is.
    pub fn broken(&self) -> (r: Option<&str>)
        ensures
            match r {
                Some(reason) => self@.broken == Some(reason@),
                None => self@.broken is None,
            },
    {
        match &self.broken_reason {
            Some(reason) => Some(reason.as_str()),
            None => None,
        }
    }

    /// Decides on a request that is to be sent. A broken pipe refuses it, and so
    /// does a request in flight with the same id; neither changes the table.
    pub fn handle_send(&self, args: RequestArgs, workspace_root: &str) -> (r: SendStep)
        ensures
            r is Write <==> self@.admits_send(args.request_id@),
            match self@.broken {
                Some(reason) => r matches SendStep::Broken(s) && s@ == reason,
                None => if self@.pending.contains(args.request_id@) {
                    r matches SendStep::Duplicate(BackendError::Broken(s)) && s@
                        == "duplicate request id: "@ + args.request_id@
                } else {
                    r matches SendStep::Write(
                        ClientMessage::Request {
                            request_id,
                            thread_id,
                            prompt,
                            workspace_root: root,
                            active_file,
                            selection,
                            cursor_position,
                            language_id,
                        },
                    ) && request_id == args.request_id && thread_id == args.thread_id && prompt
                        == args.prompt && root@ == workspace_root@ && active_file
                        == args.active_file && selection == args.selection && cursor_position
                        == args.cursor_position && language_id == args.language_id
                },
            },
    {
        match &self.broken_reason {
            Some(reason) => {
                return SendStep::Broken(reason.clone());
            },
            None => {},
        }
        if self.is_pending(args.request_id.as_str()) {
            return SendStep::Duplicate(
                BackendError::Broken(
                    text::concat("duplicate request id: ", args.request_id.as_str()),
                ),
            );
        }
        SendStep::Write(
            ClientMessage::Request {
                request_id: args.request_id,
                thread_id: args.thread_id,
                prompt: args.prompt,
                workspace_root: text::owned(workspace_root),
                active_file: args.active_file,
                selection: args.selection,
                cursor_position: args.cursor_position,
                language_id: args.language_id,
            },
        )
    }

    /// Registers a request whose frame is on the wire.
    pub fn request_sent(&mut self, request_id: String)
        requires
            old(self)@.well_formed(),
            !old(self)@.pending.contains(request_id@),
        ensures
            final(self)@ == (CorrelationView {
                pending: old(self)@.pending.push(request_id@),
                ..old(self)@
            }),
            final(self)@.well_formed(),
    {
        broadcast use text::texts_push;

        self.pending.push(request_id);
    }

    /// Decides on a cancel. It is strictly per request: an unknown id is refused
    /// and never reaches the wire.
    pub fn handle_cancel(&self, request_id: String) -> (r: CancelStep)
        ensures
            r is Write <==> self@.admits_cancel(request_id@),
            match self@.broken {
                Some(reason) => r matches CancelStep::Refused(BackendError::Broken(s)) && s@
                    == reason,
                None => if self@.pending.contains(request_id@) {
                    r == CancelStep::Write(ClientMessage::Cancel { request_id })
                } else {
                    r == CancelStep::Refused(BackendError::UnknownRequest { request_id })
                },
            },
    {
        match &self.broken_reason {
            Some(reason) => {
                return CancelStep::Refused(BackendError::Broken(reason.clone()));
            },
            None => {},
        }
        if !self.is_pending(request_id.as_str()) {
            return CancelStep::Refused(BackendError::UnknownRequest { request_id });
        }
        CancelStep::Write(ClientMessage::Cancel { request_id })
    }

    /// Marks the pipe broken. Returns the requests that were in flight: each is
    /// to fail with `reason`.
    pub fn broken_pipe(&mut self, reason: String) -> (failed: Vec<String>)
        ensures
            text::texts(failed@) == old(self)@.pending,
            final(self)@ == CorrelationView::broken_for(reason@),
            final(self)@.well_formed(),
    {
        let mut failed: Vec<String> = Vec::new();
        core::mem::swap(&mut failed, &mut self.pending);
        self.broken_reason = Some(reason);
        assert(text::texts(self.pending@) =~= Seq::empty());
        failed
    }

    /// A fresh backend is up: the pipe is whole again.
    pub fn reconnected(&mut self)
        ensures
            final(self)@ == old(self)@.reconnected(),
    {
        self.broken_reason = None;
    }

    /// Takes note of how a frame was written. A write that failed breaks the
    /// pipe. Returns the verdict, and the requests that fail with it.
    pub fn send_frame(&mut self, outcome: FrameWrite) -> (r: (Result<(), BackendError>, Vec<String>))
        ensures
            match outcome {
                FrameWrite::Written => r.0 is Ok,
                FrameWrite::NotSerialized(e) => r.0 matches Err(BackendError::Broken(s)) && s@
                    == "cannot serialize frame: "@ + e@,
                FrameWrite::Closed => r.0 matches Err(BackendError::Broken(s)) && s@
                    == "backend stdin already closed"@,
                FrameWrite::Failed(e) => r.0 == Err::<(), BackendError>(BackendError::Io(e)),
            },
            match outcome {
                FrameWrite::Failed(e) => text::texts(r.1@) == old(self)@.pending && final(self)@
                    == CorrelationView::broken_for(e@),
                _ => r.1@.len() == 0 && final(self)@ == old(self)@,
            },
    {
        let none: Vec<String> = Vec::new();
        match outcome {
            FrameWrite::Written => (Ok(()), none),
            FrameWrite::NotSerialized(e) => (
                Err(BackendError::Broken(text::concat("cannot serialize frame: ", e.as_str()))),
                none,
            ),
            FrameWrite::Closed => (
                Err(BackendError::Broken(text::owned("backend stdin already closed"))),
                none,
            ),
            FrameWrite::Failed(e) => {
                let failed = self.broken_pipe(e.clone());
                (Err(BackendError::Io(e)), failed)
            },
        }
    }

    /// The backend's output ended for `reason`. Returns the requests that fail
    /// with it, and the line for the diagnostics log.
    pub fn pipe_died(&mut self, reason: String) -> (r: (Vec<String>, String))
        ensures
            text::texts(r.0@) == old(self)@.pending,
            r.1@ == "pipe closed: "@ + reason@,
            final(self)@ == CorrelationView::broken_for(reason@),
            final(self)@.well_formed(),
    {
        let note = text::concat("pipe closed: ", reason.as_str());
        (self.broken_pipe(reason), note)
    }

    /// No fresh backend came up; `error` says why.
    pub fn reconnect_failed(&mut self, error: &str)
        ensures
            final(self)@ == (CorrelationView {
                broken: Some("reconnect failed: "@ + error@),
                ..old(self)@
            }),
    {
        self.broken_reason = Some(text::concat("reconnect failed: ", error));
    }

    fn take(&mut self, id: &str) -> (found: bool)
        requires
            old(self)@.well_formed(),
        ensures
            found == old(self)@.pending.contains(id@),
            final(self)@ == (if found {
                old(self)@.without(id@)
            } else {
                old(self)@
            }),
            final(self)@.well_formed(),
    {
        match self.position(id) {
            Some(i) => {
                let ghost before = self@.pending;
                proof {
                    let first = before.index_of_first(id@);
                    before.index_of_first_ensures(id@);
                    assert(first == Some(i as int));
                    assert(before.remove(i as int) == before.remove_value(id@));
                }
                let _ = self.pending.remove(i);
                proof {
                    assert(text::texts(self.pending@) =~= before.remove(i as int));
                    assert(self@.pending.no_duplicates());
                }
                true
            },
            None => false,
        }
    }

    /// Routes one server frame. Only a result or an error resolves a request,
    /// and only the one whose id it carries.
    pub fn dispatch_frame(&mut self, msg: ServerMessage) -> (r: Delivery)
        requires
            old(self)@.well_formed(),
        ensures
            r == delivery(old(self)@, msg),
            final(self)@ == after_frame(old(self)@, msg),
            final(self)@.well_formed(),
    {
        match msg {
            ServerMessage::Status { request_id, state } => Delivery::Status(
                StatusUpdate { request_id: StatusRequestId(request_id), state },
            ),
            ServerMessage::AgentEvent { request_id, event, active, total, .. } => Delivery::Agent(
                AgentEventUpdate { request_id, event, active, total },
            ),
            ServerMessage::Message { thread_id, content, model, provider, thoughts } => {
                Delivery::Background { thread_id, content, model, provider, thoughts }
            },
            ServerMessage::CwdUpdate { thread_id, cwd } => Delivery::Cwd { thread_id, cwd },
            ServerMessage::Result { request_id, content, model, provider, usage, thoughts } => {
                if self.take(request_id.as_str()) {
                    Delivery::Resolve {
                        request_id: request_id.clone(),
                        outcome: Ok(
                            ServerMessage::Result {
                                request_id,
                                content,
                                model,
                                provider,
                                usage,
                                thoughts,
                            },
                        ),
                    }
                } else {
                    Delivery::Dropped
                }
            },
            ServerMessage::Error { request_id: Some(id), code, message, .. } => {
                if self.take(id.as_str()) {
                    Delivery::Resolve {
                        request_id: id.clone(),
                        outcome: Err(
                            BackendError::RequestFailed { request_id: Some(id), code, message },
                        ),
                    }
                } else {
                    Delivery::Dropped
                }
            },
            ServerMessage::Error { request_id: None, .. } => Delivery::Dropped,
            ServerMessage::Ready { .. } => Delivery::Dropped,
        }
    }
}

/// Frames that end no request leave every request in flight.
pub proof fn law_progress_never_resolves(table: CorrelationView, msg: ServerMessage)
    requires
        !(msg is Result),
        !(msg is Error),
    ensures
        after_frame(table, msg) == table,
        !(delivery(table, msg) is Resolve),
{
}

/// A frame that ends a request takes that request alone out of the table, and
/// resolves it where it was in flight.
pub proof fn law_final_frame_resolves_its_request(
    table: CorrelationView,
    msg: ServerMessage,
    other: Seq<char>,
)
    requires
        table.well_formed(),
        ends_request(msg) is Some,
    ensures
        delivery(table, msg) is Resolve <==> table.pending.contains(ends_request(msg)->0),
        !after_frame(table, msg).pending.contains(ends_request(msg)->0),
        other != ends_request(msg)->0 ==> (after_frame(table, msg).pending.contains(other)
            <==> table.pending.contains(other)),
{
    let id = ends_request(msg)->0;
    if table.pending.contains(id) {
        let i = table.pending.index_of_first(id)->0;
        table.pending.index_of_first_ensures(id);
        let after = table.pending.remove(i);
        assert(after == table.pending.remove_value(id));
        if after.contains(id) {
            let k = choose|k: int| 0 <= k < after.len() && after[k] == id;
            if k < i {
                assert(table.pending[k] == id);
            } else {
                assert(table.pending[k + 1] == id);
            }
        }
        if table.pending.contains(other) && other != id {
            let k = choose|k: int| 0 <= k < table.pending.len() && table.pending[k] == other;
            if k < i {
                assert(after[k] == other);
            } else {
                assert(after[k - 1] == other);
            }
        }
        if after.contains(other) {
            let k = choose|k: int| 0 <= k < after.len() && after[k] == other;
            if k < i {
                assert(table.pending[k] == other);
            } else {
                assert(table.pending[k + 1] == other);
            }
        }
    }
}

/// A global error has no request to fail.
pub proof fn law_global_error_dropped(table: CorrelationView, msg: ServerMessage)
    requires
        msg matches ServerMessage::Error { request_id, .. } && request_id is None,
    ensures
        after_frame(table, msg) == table,
        delivery(table, msg) is Dropped,
{
}

/// After the pipe broke nothing is sent, neither a request nor a cancel.
pub proof fn law_broken_admits_nothing(reason: Seq<char>, id: Seq<char>)
    ensures
        !CorrelationView::broken_for(reason).admits_send(id),
        !CorrelationView::broken_for(reason).admits_cancel(id),
{
}

/// A reconnect makes every request possible again.
pub proof fn law_reconnect_restores(reason: Seq<char>, id: Seq<char>)
    ensures
        CorrelationView::broken_for(reason).reconnected().admits_send(id),
{
}

/// A request and its cancel are never possible at the same time.
pub proof fn law_send_excludes_cancel(table: CorrelationView, id: Seq<char>)
    ensures
        !(table.admits_send(id) && table.admits_cancel(id)),
{
}

/// What reading from the backend gave.
#[derive(Debug)]
pub enum ReadOutcome {
    /// Nothing more will come.
    End,
    /// A line, with its line end.
    Line(String),
    /// Reading failed.
    Failed(String),
}

/// What the reader does next.
#[derive(Debug)]
pub enum ReaderStep {
    /// Hand this line on, and read on.
    Line(String),
    /// Report the end of the pipe, and stop.
    Died(String),
}

/// `s` without the line ends behind it.
pub open spec fn without_line_end(s: Seq<char>) -> Seq<char>
    decreases s.len(),
{
    if s.len() > 0 && (s.last() == '\n' || s.last() == '\r') {
        without_line_end(s.drop_last())
    } else {
        s
    }
}

fn strip_line_end(s: &str) -> (r: String)
    ensures
        r@ == without_line_end(s@),
{
    let chars = text::to_chars(s);
    let mut end: usize = chars.len();
    assert(s@.take(end as int) =~= s@);
    while end > 0 && (chars[end - 1] == '\n' || chars[end - 1] == '\r')
        invariant
            chars@ == s@,
            end <= chars@.len(),
            without_line_end(s@) == without_line_end(s@.take(end as int)),
        decreases end,
    {
        assert(s@.take(end as int).drop_last() =~= s@.take(end - 1));
        end -= 1;
    }
    let r = text::from_chars(&chars, 0, end);
    assert(r@ =~= s@.take(end as int));
    r
}

/// Decides what the reader does with what it read.
pub fn read_step(outcome: ReadOutcome) -> (r: ReaderStep)
    ensures
        match outcome {
            ReadOutcome::End => r matches ReaderStep::Died(reason) && reason@
                == "backend closed stdout (EOF)"@,
            ReadOutcome::Line(line) => r matches ReaderStep::Line(l) && l@ == without_line_end(
                line@,
            ),
            ReadOutcome::Failed(e) => r == ReaderStep::Died(e),
        },
{
    match outcome {
        ReadOutcome::End => ReaderStep::Died(text::owned("backend closed stdout (EOF)")),
        ReadOutcome::Line(line) => ReaderStep::Line(strip_line_end(line.as_str())),
        ReadOutcome::Failed(e) => ReaderStep::Died(e),
    }
}

/// A name for the text of the string member `key` of the JSON object `line`;
/// `None` where `line` is no such object.
pub uninterp spec fn json_string_member(line: Seq<char>, key: Seq<char>) -> Option<Seq<char>>;

/// `serde_json::from_str` into a `serde_json::Value`, then `get` and `as_str`:
/// the string member `key` of the JSON object `line`.
#[verifier::external_body]
fn json_member(line: &str, key: &str) -> (r: Option<String>)
    ensures
        match r {
            Some(s) => json_string_member(line@, key@) == Some(s@),
            None => json_string_member(line@, key@) is None,
        },
{
    let value = serde_json::from_str::<serde_json::Value>(line).ok()?;
    value.get(key)?.as_str().map(str::to_owned)
}

/// The diagnostic for a line that is no known frame: it names the unknown
/// `type`; a line without one leaves no trace.
pub fn unknown_frame_note(tag: Option<String>) -> (r: Option<String>)
    ensures
        match tag {
            Some(t) => r matches Some(s) && s@ == "unknown frame type: "@ + t@,
            None => r is None,
        },
{
    match tag {
        Some(t) => Some(text::concat("unknown frame type: ", t.as_str())),
        None => None,
    }
}

/// Decides on one line of the backend's output, where `parsed` is the frame
/// that it holds, if it holds a known one: the frame, and the diagnostic that
/// the line leaves.
pub fn parse_frame(line: &str, parsed: Option<ServerMessage>) -> (r: (
    Option<ServerMessage>,
    Option<String>,
))
    ensures
        r.0 == parsed,
        parsed is Some ==> r.1 is None,
        parsed is None ==> match json_string_member(line@, "type"@) {
            Some(t) => r.1 matches Some(s) && s@ == "unknown frame type: "@ + t,
            None => r.1 is None,
        },
{
    match parsed {
        Some(msg) => (Some(msg), None),
        None => {
            let tag = json_member(line, "type");
            (None, unknown_frame_note(tag))
        },
    }
}

/// The verdict of a shutdown: `reaped` is the backend's exit, `None` where no
/// backend was left.
pub fn shutdown_verdict(reaped: Option<Result<i32, BackendError>>) -> (r: Result<
    (),
    BackendError,
>)
    ensures
        match reaped {
            Some(Ok(status)) => if status == 0 {
                r is Ok
            } else {
                r == Err::<(), BackendError>(BackendError::UnexpectedExit { status })
            },
            Some(Err(e)) => r == Err::<(), BackendError>(e),
            None => r matches Err(BackendError::Broken(reason)) && reason@
                == "no live backend to shut down"@,
        },
{
    match reaped {
        Some(Ok(status)) => if status == 0 {
            Ok(())
        } else {
            Err(BackendError::UnexpectedExit { status })
        },
        Some(Err(e)) => Err(e),
        None => Err(BackendError::Broken(text::owned("no live backend to shut down"))),
    }
}

/// The script that stands in for the backend, if any: the name of the backend
/// itself counts as none.
pub open spec fn scripted_peer(script: Option<Seq<char>>) -> Option<Seq<char>> {
    match script {
        Some(path) if path != "chibi"@ => Some(path),
        _ => None,
    }
}

/// The command line of the backend: the binary, by default `chibi`, under the
/// stdio transport; or, where `script` names one, a scripted peer.
pub open spec fn backend_command(
    binary: Option<Seq<char>>,
    script: Option<Seq<char>>,
    workspace_root: Seq<char>,
) -> Seq<Seq<char>> {
    match scripted_peer(script) {
        Some(path) => seq!["python3"@, path, "--workspace"@, workspace_root],
        None => seq![
            match binary {
                Some(b) => b,
                None => "chibi"@,
            },
            "stdio"@,
            "--tui"@,
        ],
    }
}

/// Builds the backend's command line; `extra` goes behind it.
pub fn backend_argv(
    binary: Option<&str>,
    script: Option<&str>,
    workspace_root: &str,
    extra: &Vec<String>,
) -> (r: Vec<String>)
    ensures
        text::texts(r@) == backend_command(
            match binary {
                Some(b) => Some(b@),
                None => None,
            },
            match script {
                Some(s) => Some(s@),
                None => None,
            },
            workspace_root@,
        ) + text::texts(extra@),
{
    broadcast use text::texts_push;

    let mut argv: Vec<String> = Vec::new();
    let peer = match script {
        Some(path) => if text::same_text(path, "chibi") {
            None
        } else {
            Some(path)
        },
        None => None,
    };
    match peer {
        Some(path) => {
            argv.push(text::owned("python3"));
            argv.push(text::owned(path));
            argv.push(text::owned("--workspace"));
            argv.push(text::owned(workspace_root));
        },
        None => {
            argv.push(
                match binary {
                    Some(b) => text::owned(b),
                    None => text::owned("chibi"),
                },
            );
            argv.push(text::owned("stdio"));
            argv.push(text::owned("--tui"));
        },
    }
    let ghost head = text::texts(argv@);
    let mut i: usize = 0;
    assert(head =~= head + text::texts(extra@).take(0));
    while i < extra.len()
        invariant
            i <= extra@.len(),
            text::texts(argv@) == head + text::texts(extra@).take(i as int),
        decreases extra@.len() - i,
    {
        broadcast use text::texts_push;

        argv.push(extra[i].clone());
        i += 1;
        assert(head + text::texts(extra@).take(i as int) =~= (head + text::texts(extra@).take(
            i - 1,
        )).push(text::texts(extra@)[i - 1]));
    }
    assert(text::texts(extra@).take(i as int) =~= text::texts(extra@));
    argv
}

/// A result frame resolves the request in flight that it names, with every field
/// as it came; a request that is not in flight hears nothing.
pub proof fn law_result_reaches_its_request(table: CorrelationView, msg: ServerMessage)
    requires
        msg is Result,
    ensures
        table.pending.contains(msg->Result_request_id@) ==> {
            &&& delivery(table, msg) is Resolve
            &&& delivery(table, msg)->Resolve_request_id == msg->Result_request_id
            &&& delivery(table, msg)->outcome is Ok
            &&& delivery(table, msg)->outcome->Ok_0 is Result
            &&& delivery(table, msg)->outcome->Ok_0->Result_request_id == msg->Result_request_id
            &&& delivery(table, msg)->outcome->Ok_0->Result_content == msg->Result_content
            &&& delivery(table, msg)->outcome->Ok_0->Result_model == msg->Result_model
            &&& delivery(table, msg)->outcome->Ok_0->Result_provider == msg->Result_provider
            &&& delivery(table, msg)->outcome->Ok_0->usage == msg->usage
            &&& delivery(table, msg)->outcome->Ok_0->Result_thoughts == msg->Result_thoughts
        },
        !table.pending.contains(msg->Result_request_id@) ==> delivery(table, msg) is Dropped,
{
}

/// An error frame fails the request in flight that it names, with the frame's
/// code and message.
pub proof fn law_error_reaches_its_request(table: CorrelationView, msg: ServerMessage)
    requires
        msg is Error,
        msg->Error_request_id is Some,
    ensures
        table.pending.contains(msg->Error_request_id->0@) ==> {
            &&& delivery(table, msg) is Resolve
            &&& delivery(table, msg)->Resolve_request_id == msg->Error_request_id->0
            &&& delivery(table, msg)->outcome is Err
            &&& delivery(table, msg)->outcome->Err_0 is RequestFailed
            &&& delivery(table, msg)->outcome->Err_0->RequestFailed_request_id
                == msg->Error_request_id
            &&& delivery(table, msg)->outcome->Err_0->code == msg->code
            &&& delivery(table, msg)->outcome->Err_0->message == msg->message
        },
        !table.pending.contains(msg->Error_request_id->0@) ==> delivery(table, msg) is Dropped,
{
}

/// Frames about progress, threads and directories go to their own streams, with
/// every field as it came, whatever is in flight.
pub proof fn law_streams_carry_their_frames(table: CorrelationView, msg: ServerMessage)
    ensures
        match msg {
            ServerMessage::Status { request_id, state } => {
                delivery(table, msg) matches Delivery::Status(u) && u.request_id.0 == request_id
                    && u.state == state
            },
            ServerMessage::AgentEvent { request_id, event, active, total, .. } => {
                delivery(table, msg) matches Delivery::Agent(u) && u.request_id == request_id
                    && u.event == event && u.active == active && u.total == total
            },
            ServerMessage::Message { thread_id, content, model, provider, thoughts } => {
                delivery(table, msg) matches Delivery::Background {
                    thread_id: id,
                    content: c,
                    model: m,
                    provider: p,
                    thoughts: th,
                } && id == thread_id && c == content && m == model && p == provider && th
                    == thoughts
            },
            ServerMessage::CwdUpdate { thread_id, cwd } => {
                delivery(table, msg) matches Delivery::Cwd { thread_id: id, cwd: dir } && id
                    == thread_id && dir == cwd
            },
            ServerMessage::Ready { .. } => delivery(table, msg) is Dropped,
            _ => true,
        },
{
}

/// Ids leave the table only by their own final frame, and the ones that stay keep
/// their order.
pub proof fn law_frames_keep_order(table: CorrelationView, msg: ServerMessage)
    requires
        table.well_formed(),
    ensures
        after_frame(table, msg).broken == table.broken,
        after_frame(table, msg).well_formed(),
        after_frame(table, msg).pending == table.pending.filter(
            |id: Seq<char>| ends_request(msg) != Some(id),
        ),
        ends_request(msg) is Some <==> (msg is Result || (msg is Error && msg->Error_request_id
            is Some)),
        msg is Result ==> ends_request(msg) == Some(msg->Result_request_id@),
        msg is Error && msg->Error_request_id is Some ==> ends_request(msg) == Some(
            msg->Error_request_id->0@,
        ),
{
    let keep = |id: Seq<char>| ends_request(msg) != Some(id);
    lemma_without_is_filter(table.pending, ends_request(msg));
    match ends_request(msg) {
        Some(id) => {
            table.pending.index_of_first_ensures(id);
            let kept = |x: Seq<char>| Some(id) != Some(x);
            assert(table.pending.filter(keep) == table.pending.filter(
                |x: Seq<char>| ends_request(msg) != Some(x),
            ));
        },
        None => {},
    }
    if table.pending.contains(ends_request(msg)->0) && ends_request(msg) is Some {
        let id = ends_request(msg)->0;
        let i = table.pending.index_of_first(id)->0;
        assert(table.without(id).pending == table.pending.remove(i));
        assert(table.without(id).pending.no_duplicates());
    }
}

proof fn lemma_without_is_filter(s: Seq<Seq<char>>, gone: Option<Seq<char>>)
    requires
        s.no_duplicates(),
    ensures
        gone is Some && s.contains(gone->0) ==> s.filter(|x: Seq<char>| gone != Some(x))
            == s.remove_value(gone->0),
        gone is None || !s.contains(gone->0) ==> s.filter(|x: Seq<char>| gone != Some(x)) == s,
    decreases s.len(),
{
    let keep = |x: Seq<char>| gone != Some(x);
    reveal(Seq::filter);
    if s.len() > 0 {
        let front = s.drop_last();
        lemma_without_is_filter(front, gone);
        assert(front.push(s.last()) =~= s);
        assert forall|k: int| 0 <= k < front.len() implies front[k] == s[k] by {}
        if gone is Some && s.contains(gone->0) {
            let id = gone->0;
            s.index_of_first_ensures(id);
            let i = s.index_of_first(id)->0;
            if i < front.len() {
                assert(front[i] == id);
                assert(front.contains(id));
                front.index_of_first_ensures(id);
                let j = front.index_of_first(id)->0;
                assert(s[j] == id);
                assert(i == j);
                assert(s.last() != id);
                assert(s.remove(i) =~= front.remove(i).push(s.last()));
            } else {
                assert(s.last() == id);
                if front.contains(id) {
                    let k = choose|k: int| 0 <= k < front.len() && front[k] == id;
                    assert(s[k] == id);
                }
                assert(s.remove(i) =~= front);
            }
        } else if gone is Some {
            if front.contains(gone->0) {
                let k = choose|k: int| 0 <= k < front.len() && front[k] == gone->0;
                assert(s[k] == gone->0);
            }
            assert(s.last() == s[s.len() - 1]);
        }
    }
}

/// A line is handed on without the line ends behind it, and else as it came.
pub proof fn law_line_ends_alone_are_cut(s: Seq<char>)
    ensures
        without_line_end(s).is_prefix_of(s),
        forall|i: int|
            without_line_end(s).len() <= i < s.len() ==> s[i] == '\n' || #[trigger] s[i] == '\r',
        without_line_end(s).len() > 0 ==> without_line_end(s).last() != '\n' && without_line_end(
            s,
        ).last() != '\r',
    decreases s.len(),
{
    if s.len() > 0 && (s.last() == '\n' || s.last() == '\r') {
        let front = s.drop_last();
        law_line_ends_alone_are_cut(front);
        let cut = without_line_end(s);
        assert(s.take(cut.len() as int) =~= front.take(cut.len() as int));
        assert forall|i: int| cut.len() <= i < s.len() implies s[i] == '\n' || #[trigger] s[i]
            == '\r' by {
            if i < front.len() {
                assert(front[i] == s[i]);
            }
        }
    }
}

/// Without a script the program runs the named binary, or `chibi`, in its stdio
/// mode; with one, `python3` runs the script on the workspace.
pub proof fn law_backend_command(
    binary: Option<Seq<char>>,
    script: Option<Seq<char>>,
    workspace_root: Seq<char>,
)
    ensures
        script is None || script == Some("chibi"@) ==> {
            &&& backend_command(binary, script, workspace_root).len() == 3
            &&& backend_command(binary, script, workspace_root)[0] == (if binary is Some {
                binary->0
            } else {
                "chibi"@
            })
            &&& backend_command(binary, script, workspace_root)[1] == "stdio"@
            &&& backend_command(binary, script, workspace_root)[2] == "--tui"@
        },
        script matches Some(path) ==> path != "chibi"@ ==> {
            &&& backend_command(binary, script, workspace_root).len() == 4
            &&& backend_command(binary, script, workspace_root)[0] == "python3"@
            &&& backend_command(binary, script, workspace_root)[1] == path
            &&& backend_command(binary, script, workspace_root)[2] == "--workspace"@
            &&& backend_command(binary, script, workspace_root)[3] == workspace_root
        },
{
}

/// A live pipe takes every request but one that is in flight already, and a
/// cancel of exactly those in flight.
pub proof fn law_live_pipe_admits(table: CorrelationView, id: Seq<char>)
    requires
        table.broken is None,
    ensures
        table.admits_send(id) <==> !table.pending.contains(id),
        table.admits_cancel(id) <==> table.pending.contains(id),
        CorrelationView::broken_for(id).pending.len() == 0,
        CorrelationView::broken_for(id).broken == Some(id),
        table.reconnected() == table,
{
}

/// A request that may be sent goes on the wire whole, as it was asked; a pipe that
/// is broken refuses it and says why, and an id in flight is not sent twice.
pub proof fn law_request_is_sent_whole(
    table: &Correlation,
    args: RequestArgs,
    workspace_root: &str,
    r: SendStep,
)
    requires
        call_ensures(Correlation::handle_send, (table, args, workspace_root), r),
    ensures
        table@.broken is None && !table@.pending.contains(args.request_id@) ==> (r matches SendStep::Write(
            ClientMessage::Request {
                request_id,
                thread_id,
                prompt,
                workspace_root: root,
                active_file,
                selection,
                cursor_position,
                language_id,
            },
        ) && request_id == args.request_id && thread_id == args.thread_id && prompt == args.prompt
            && root@ == workspace_root@ && active_file == args.active_file && selection
            == args.selection && cursor_position == args.cursor_position && language_id
            == args.language_id),
        table@.broken matches Some(why) ==> (r matches SendStep::Broken(s) && s@ == why),
        table@.broken is None && table@.pending.contains(args.request_id@) ==> r is Duplicate,
{
}

/// A cancel goes out for a request in flight and for no other.
pub proof fn law_cancel_names_its_request(table: &Correlation, request_id: String, r: CancelStep)
    requires
        call_ensures(Correlation::handle_cancel, (table, request_id), r),
    ensures
        table@.broken is None && table@.pending.contains(request_id@) ==> (r matches CancelStep::Write(
            ClientMessage::Cancel { request_id: id },
        ) && id == request_id),
        table@.broken is Some || !table@.pending.contains(request_id@) ==> r is Refused,
        table@.broken is None && !table@.pending.contains(request_id@) ==> (r matches CancelStep::Refused(
            BackendError::UnknownRequest { request_id: id },
        ) && id == request_id),
{
}

/// A request that was sent is in flight until its own final frame comes, which
/// resolves it with what the frame holds; then it is not in flight any more.
pub proof fn law_answer_finds_its_request(
    sent: &mut Correlation,
    later: &mut Correlation,
    request_id: String,
    msg: ServerMessage,
    r: Delivery,
)
    requires
        old(sent)@.well_formed(),
        call_ensures(Correlation::request_sent, (sent, request_id), ()),
        final(sent)@ == old(later)@,
        call_ensures(Correlation::dispatch_frame, (later, msg), r),
        msg matches ServerMessage::Result { request_id: id, .. } && id@ == request_id@,
    ensures
        r is Resolve,
        r->Resolve_request_id@ == request_id@,
        r->outcome matches Ok(m) && m is Result && m->Result_content == msg->Result_content
            && m->Result_model == msg->Result_model && m->Result_provider == msg->Result_provider
            && m->usage == msg->usage && m->Result_thoughts == msg->Result_thoughts,
        !final(later)@.pending.contains(request_id@),
{
    assert(final(sent)@.pending.last() == request_id@);
    assert(final(sent)@.pending.contains(request_id@)) by {
        let p = final(sent)@.pending;
        assert(p[p.len() - 1] == request_id@);
    }
    law_result_reaches_its_request(old(later)@, msg);
    law_final_frame_resolves_its_request(old(later)@, msg, request_id@);
}

/// A pipe that breaks fails every request in flight, each once, and nothing is in
/// flight behind it.
pub proof fn law_broken_pipe_fails_all(
    table: &mut Correlation,
    reason: String,
    failed: Vec<String>,
)
    requires
        call_ensures(Correlation::broken_pipe, (table, reason), failed),
    ensures
        text::texts(failed@) == old(table)@.pending,
        final(table)@.pending.len() == 0,
        final(table)@.broken == Some(reason@),
{
}

/// A write that failed breaks the pipe; any other trouble with a frame is told and
/// leaves the requests alone.
pub proof fn law_failed_write_breaks_the_pipe(
    table: &mut Correlation,
    outcome: FrameWrite,
    r: (Result<(), BackendError>, Vec<String>),
)
    requires
        call_ensures(Correlation::send_frame, (table, outcome), r),
    ensures
        r.0 is Ok <==> outcome is Written,
        outcome is Failed ==> text::texts(r.1@) == old(table)@.pending && final(table)@.broken
            is Some && final(table)@.pending.len() == 0,
        !(outcome is Failed) ==> final(table)@ == old(table)@ && r.1@.len() == 0,
{
}

/// What was read is handed on line by line; the end of the output and an error end
/// the reading, with the reason.
pub proof fn law_reader(outcome: ReadOutcome, r: ReaderStep)
    requires
        call_ensures(read_step, (outcome,), r),
    ensures
        outcome matches ReadOutcome::Line(line) ==> (r matches ReaderStep::Line(l)
            && l@.is_prefix_of(line@) && forall|i: int|
            l@.len() <= i < line@.len() ==> #[trigger] line@[i] == '\n' || line@[i] == '\r'),
        outcome is End ==> (r matches ReaderStep::Died(why) && why@
            == "backend closed stdout (EOF)"@),
        outcome matches ReadOutcome::Failed(e) ==> r == ReaderStep::Died(e),
{
    if outcome is Line {
        law_line_ends_alone_are_cut(outcome->Line_0@);
    }
}

/// A known frame goes on as it is; a line that holds none leaves a note that names
/// the unknown type, if it has one.
pub proof fn law_known_frames_go_on(
    line: &str,
    parsed: Option<ServerMessage>,
    r: (Option<ServerMessage>, Option<String>),
)
    requires
        call_ensures(parse_frame, (line, parsed), r),
    ensures
        r.0 == parsed,
        parsed is Some ==> r.1 is None,
        parsed is None ==> (r.1 is Some <==> json_string_member(line@, "type"@) is Some),
        parsed is None ==> (r.1 matches Some(note) ==> note@ == "unknown frame type: "@
            + json_string_member(line@, "type"@)->0),
{
}

/// A backend that left with zero was shut down well; anything else is told.
pub proof fn law_shutdown_is_judged(
    reaped: Option<Result<i32, BackendError>>,
    r: Result<(), BackendError>,
)
    requires
        call_ensures(shutdown_verdict, (reaped,), r),
    ensures
        r is Ok <==> (reaped matches Some(Ok(status)) && status == 0),
        reaped matches Some(Ok(status)) ==> status != 0 ==> (r matches Err(
            BackendError::UnexpectedExit { status: s },
        ) && s == status),
        reaped matches Some(Err(e)) ==> r == Err::<(), BackendError>(e),
{
}

} // verus!
