//! The decisions of the event loop: what a key, a paste or a backend event leads
//! to, and how the link to the backend starts and recovers.

use vstd::prelude::*;
use crate::app::{Chat, Connection, Focus, Mode, Submitted};
use crate::keys::{should_submit, KeyCode, KeyEvent};
use crate::live::{wire_thread_id, BackendEvent};
use crate::mock::chat;
use crate::request_pipeline::BackendError;
use crate::setup_screen::applies;
use crate::{live, mock, model, text};

verus! {

/// Where submissions go.
#[derive(Clone, Copy, Debug, PartialEq, Eq, Structural)]
pub enum Source {
    /// A running backend.
    Live,
    /// The demo backend.
    Mock,
    /// A backend that is down.
    LivePlaceholder,
}

impl Source {
    /// Whether submissions can go anywhere.
    pub open spec fn accepts(self) -> bool {
        self != Source::LivePlaceholder
    }

    /// Whether submissions can go anywhere.
    pub fn accepts_submissions(self) -> (r: bool)
        ensures
            r == self.accepts(),
    {
        match self {
            Source::LivePlaceholder => false,
            _ => true,
        }
    }
}

/// Which surfaces were open before a key was handled.
#[derive(Clone, Copy, Debug, PartialEq, Eq, Structural)]
pub struct KeySnapshot {
    pub renaming: bool,
    pub confirming_delete: bool,
    pub confirming_stop_reset: bool,
    pub searching: bool,
    pub searching_all: bool,
    pub sidebar_focused: bool,
    pub model_picking: bool,
    pub help_viewing: bool,
    pub log_viewing: bool,
    pub quit_confirm: bool,
}

impl KeySnapshot {
    /// Whether Enter belongs to a confirmation, a search, the model picker, the
    /// help, the log viewer or the chat list.
    pub open spec fn owns_enter(self) -> bool {
        self.confirming_delete || self.confirming_stop_reset || self.searching
            || self.searching_all || self.sidebar_focused || self.model_picking
            || self.help_viewing || self.log_viewing || self.quit_confirm
    }
}

/// The surfaces that are open now.
pub fn key_snapshot(mode: &Mode, focus: Focus, quit_confirm: bool) -> (r: KeySnapshot)
    ensures
        r == (KeySnapshot {
            renaming: mode is Renaming,
            confirming_delete: mode is ConfirmDelete,
            confirming_stop_reset: mode is ConfirmStopReset,
            searching: mode is Searching,
            searching_all: mode is SearchingAll,
            sidebar_focused: focus == Focus::Sidebar,
            model_picking: mode is ModelPicking,
            help_viewing: mode is HelpViewing,
            log_viewing: mode is LogViewer,
            quit_confirm,
        }),
{
    KeySnapshot {
        renaming: matches!(mode, Mode::Renaming { .. }),
        confirming_delete: matches!(mode, Mode::ConfirmDelete),
        confirming_stop_reset: matches!(mode, Mode::ConfirmStopReset { .. }),
        searching: matches!(mode, Mode::Searching { .. }),
        searching_all: matches!(mode, Mode::SearchingAll { .. }),
        sidebar_focused: match focus {
            Focus::Sidebar => true,
            Focus::Chat => false,
        },
        model_picking: matches!(mode, Mode::ModelPicking { .. }),
        help_viewing: matches!(mode, Mode::HelpViewing { .. }),
        log_viewing: matches!(mode, Mode::LogViewer { .. }),
        quit_confirm,
    }
}

/// What the loop does once a key was handled.
#[derive(Clone, Copy, Debug, PartialEq, Eq, Structural)]
pub enum AfterKey {
    Nothing,
    /// A rename took effect: store the chat.
    PersistRename,
    /// Take the draft and send it.
    Submit,
}

/// What the loop looks at once a key was handled.
#[derive(Clone, Copy, Debug, PartialEq, Eq, Structural)]
pub struct KeyOutcome {
    /// Whether no surface but the editor owns the keyboard now.
    pub normal_mode: bool,
    /// Whether the active chat's name changed.
    pub name_changed: bool,
    /// Whether the error popup is open.
    pub error_popup: bool,
    pub source: Source,
}

/// What follows a key. An Enter that belongs to another surface than the editor
/// never sends the draft.
pub open spec fn key_follow_up(before: KeySnapshot, key: KeyEvent, now: KeyOutcome) -> AfterKey {
    let enter = key.code == KeyCode::Enter;
    if before.renaming && enter {
        if now.normal_mode && now.name_changed {
            AfterKey::PersistRename
        } else {
            AfterKey::Nothing
        }
    } else if enter && key.modifiers.bare() && now.normal_mode && !now.error_popup
        && now.source.accepts() && !before.owns_enter() {
        AfterKey::Submit
    } else {
        AfterKey::Nothing
    }
}

/// Decides what follows a key.
pub fn after_key(before: &KeySnapshot, key: &KeyEvent, now: &KeyOutcome) -> (r: AfterKey)
    ensures
        r == key_follow_up(*before, *key, *now),
{
    if before.renaming && key.is_enter() {
        if now.normal_mode && now.name_changed {
            AfterKey::PersistRename
        } else {
            AfterKey::Nothing
        }
    } else if now.normal_mode && !now.error_popup && now.source.accepts_submissions()
        && should_submit(key) && !before.confirming_delete && !before.confirming_stop_reset && !before.searching
        && !before.searching_all && !before.sidebar_focused && !before.model_picking
        && !before.help_viewing && !before.log_viewing && !before.quit_confirm {
        AfterKey::Submit
    } else {
        AfterKey::Nothing
    }
}

/// A key that belongs to a confirmation, a search, the model picker, the help,
/// the log viewer, the rename line or the chat list never sends the draft, nor
/// does one that leaves any of them open.
pub proof fn law_popup_enter_never_submits(before: KeySnapshot, key: KeyEvent, now: KeyOutcome)
    requires
        before.owns_enter() || before.renaming || !now.normal_mode,
    ensures
        key_follow_up(before, key, now) != AfterKey::Submit,
{
}

/// Only Enter without a modifier sends the draft, and only where a backend takes
/// it and no error is shown.
pub proof fn law_submit_needs_bare_enter(before: KeySnapshot, key: KeyEvent, now: KeyOutcome)
    requires
        key_follow_up(before, key, now) == AfterKey::Submit,
    ensures
        key.code == KeyCode::Enter,
        key.modifiers.bare(),
        now.normal_mode,
        !now.error_popup,
        now.source.accepts(),
{
}

/// What follows the attempt to take the draft.
#[derive(Clone, Copy, Debug, PartialEq, Eq, Structural)]
pub enum AfterTake {
    Nothing,
    /// Send it, mark the chat busy, store the chat.
    SendAndPersist,
    /// It was queued: store the chat.
    Persist,
}

/// Decides what follows the attempt to take the draft: `taken` where the chat was
/// idle, and `queued` prompts wait in a busy one.
pub fn after_take(taken: bool, queued: usize) -> (r: AfterTake)
    ensures
        r == (if taken {
            AfterTake::SendAndPersist
        } else if queued > 0 {
            AfterTake::Persist
        } else {
            AfterTake::Nothing
        }),
{
    if taken {
        AfterTake::SendAndPersist
    } else if queued > 0 {
        AfterTake::Persist
    } else {
        AfterTake::Nothing
    }
}

/// What the handlers of a key have left for the loop.
#[derive(Debug)]
pub struct Staged {
    /// A hidden request of the model picker.
    pub picker: Option<Submitted>,
    /// A request to clone the thread.
    pub clone_thread: Option<Submitted>,
    /// A request to stop or to reset.
    pub control: Option<Submitted>,
    /// A deleted thread, whose file is to go.
    pub delete: Option<String>,
    /// A request to reconnect.
    pub reconnect: bool,
    /// A request to cancel: the request's id and its thread's.
    pub cancel: Option<(String, String)>,
}

/// One thing that the loop does for the handlers of a key.
#[derive(Debug)]
pub enum LoopAction {
    Send(Submitted),
    DeleteHistory(String),
    Reconnect,
    /// The demo backend never goes down: just dismiss the error.
    DismissError,
    Cancel { request_id: String, thread_id: String },
}

/// The action for a staged request, if there is one.
pub open spec fn sending(request: Option<Submitted>) -> Seq<LoopAction> {
    match request {
        Some(s) => seq![LoopAction::Send(s)],
        None => seq![],
    }
}

/// The actions for what was staged, in order: requests that go out of turn, the
/// file of a deleted thread, the reconnect and the cancel.
pub open spec fn staged_plan(staged: Staged, source: Source) -> Seq<LoopAction> {
    sending(staged.picker) + sending(staged.clone_thread) + sending(staged.control) + (match staged.delete {
        Some(id) => seq![LoopAction::DeleteHistory(id)],
        None => seq![],
    }) + (if !staged.reconnect {
        seq![]
    } else if source == Source::Mock {
        seq![LoopAction::DismissError]
    } else {
        seq![LoopAction::Reconnect]
    }) + (match staged.cancel {
        Some((request_id, thread_id)) => seq![LoopAction::Cancel { request_id, thread_id }],
        None => seq![],
    })
}

/// Lists the actions for what was staged.
pub fn staged_actions(staged: Staged, source: Source) -> (r: Vec<LoopAction>)
    ensures
        r@ == staged_plan(staged, source),
{
    let ghost first = sending(staged.picker);
    let ghost second = first + sending(staged.clone_thread);
    let ghost third = second + sending(staged.control);
    let mut actions: Vec<LoopAction> = Vec::new();
    match staged.picker {
        Some(s) => {
            actions.push(LoopAction::Send(s));
        },
        None => {},
    }
    assert(actions@ =~= first);
    match staged.clone_thread {
        Some(s) => {
            actions.push(LoopAction::Send(s));
        },
        None => {},
    }
    assert(actions@ =~= second);
    match staged.control {
        Some(s) => {
            actions.push(LoopAction::Send(s));
        },
        None => {},
    }
    assert(actions@ =~= third);
    match staged.delete {
        Some(id) => {
            actions.push(LoopAction::DeleteHistory(id));
        },
        None => {},
    }
    if staged.reconnect {
        match source {
            Source::Mock => {
                actions.push(LoopAction::DismissError);
            },
            _ => {
                actions.push(LoopAction::Reconnect);
            },
        }
    }
    match staged.cancel {
        Some((request_id, thread_id)) => {
            actions.push(LoopAction::Cancel { request_id, thread_id });
        },
        None => {},
    }
    assert(actions@ =~= staged_plan(staged, source));
    actions
}

/// Whether a cancel goes to the backend; else it is resolved here, so that no
/// spinner stays.
pub fn cancel_reaches_backend(source: Source) -> (r: bool)
    ensures
        r == (source == Source::Live),
{
    match source {
        Source::Live => true,
        _ => false,
    }
}

/// Where a submission goes.
#[derive(Debug)]
pub enum SendRoute {
    /// To the backend, with its ids.
    Live(Submitted),
    /// To the demo backend, its prompt alone.
    Mock(String),
    /// Nowhere: the screen gets this event.
    Offline(BackendEvent),
}

/// Decides where a submission goes. One that meets a backend that is down comes
/// back as an error of its chat.
pub fn send_submitted(source: Source, submitted: &Submitted) -> (r: SendRoute)
    ensures
        match source {
            Source::Live => r matches SendRoute::Live(sent) && sent.request_id@
                == submitted.request_id@ && sent.thread_id@ == submitted.thread_id@ && sent.prompt@
                == submitted.prompt@,
            Source::Mock => r matches SendRoute::Mock(prompt) && prompt@ == submitted.prompt@,
            Source::LivePlaceholder => r matches SendRoute::Offline(
                BackendEvent::Error { request_id, message, thread_id },
            ) && request_id == 0 && message@ == "backend is offline; prompt not sent"@
                && text::optional(thread_id) == Some(submitted.thread_id@),
        },
{
    match source {
        Source::Live => SendRoute::Live(
            Submitted {
                request_id: submitted.request_id.clone(),
                thread_id: submitted.thread_id.clone(),
                prompt: submitted.prompt.clone(),
            },
        ),
        Source::Mock => SendRoute::Mock(submitted.prompt.clone()),
        Source::LivePlaceholder => SendRoute::Offline(
            BackendEvent::Error {
                request_id: 0,
                message: text::owned("backend is offline; prompt not sent"),
                thread_id: Some(submitted.thread_id.clone()),
            },
        ),
    }
}

/// The event of a cancel that failed. It belongs to no chat.
pub fn cancel_failed(thread_id: &str, error: &BackendError) -> (r: BackendEvent)
    ensures
        r matches BackendEvent::Error { request_id, message, thread_id: t } && request_id == 0
            && message@ == "cancel failed ("@ + thread_id@ + ("): "@ + error.words()) && t is None,
{
    let words = error.to_text();
    let tail = text::concat("): ", words.as_str());
    BackendEvent::Error {
        request_id: 0,
        message: text::concat3("cancel failed (", thread_id, tail.as_str()),
        thread_id: None,
    }
}

/// The event of a submission without ids, which a live backend cannot take.
pub fn plain_submit_rejected() -> (r: BackendEvent)
    ensures
        r matches BackendEvent::Error { request_id, message, thread_id } && request_id == 0
            && message@ == "internal error: live backend requires submit_encoded with ids"@
            && thread_id is None,
{
    BackendEvent::Error {
        request_id: 0,
        message: text::owned("internal error: live backend requires submit_encoded with ids"),
        thread_id: None,
    }
}

/// What a backend event is to the loop.
#[derive(Debug)]
pub enum EventRoute {
    /// Apply it, then store the chat with this number on the wire.
    Background(i64),
    /// Start the chat's next queued prompt, then its next parked request, then
    /// store the chat.
    Drain(String),
    /// Apply it, then store the active chat.
    Ordinary,
}

/// Decides what a backend event is to the loop.
pub fn route_event(event: &BackendEvent) -> (r: EventRoute)
    ensures
        match event {
            BackendEvent::BackgroundMessage { wire_thread_id: id, .. } => r
                == EventRoute::Background(*id),
            BackendEvent::QueueDrain { thread_id } => r matches EventRoute::Drain(t) && t@
                == thread_id@,
            _ => r is Ordinary,
        },
{
    match event {
        BackendEvent::BackgroundMessage { wire_thread_id: id, .. } => EventRoute::Background(*id),
        BackendEvent::QueueDrain { thread_id } => EventRoute::Drain(thread_id.clone()),
        _ => EventRoute::Ordinary,
    }
}

/// Whether the chat at `i` is the one that a route names.
pub open spec fn route_names(route: EventRoute, chats: Seq<Chat>, active: usize, i: int) -> bool {
    match route {
        EventRoute::Background(id) => live::wire_id(chats[i].id@) == id,
        EventRoute::Drain(thread_id) => chats[i].id@ == thread_id@,
        EventRoute::Ordinary => i == active,
    }
}

/// Which chat to store after a backend event: the first that its route names.
pub fn chat_to_persist(route: &EventRoute, chats: &Vec<Chat>, active: usize) -> (r: Option<usize>)
    ensures
        match r {
            Some(i) => i < chats@.len() && route_names(*route, chats@, active, i as int)
                && forall|k: int|
                    0 <= k < i ==> !#[trigger] route_names(*route, chats@, active, k),
            None => forall|k: int|
                0 <= k < chats@.len() ==> !#[trigger] route_names(*route, chats@, active, k),
        },
{
    let mut i: usize = 0;
    while i < chats.len()
        invariant
            i <= chats@.len(),
            forall|k: int| 0 <= k < i ==> !#[trigger] route_names(*route, chats@, active, k),
        decreases chats@.len() - i,
    {
        let named = match route {
            EventRoute::Background(id) => wire_thread_id(chats[i].id.as_str()) == *id,
            EventRoute::Drain(thread_id) => text::same_text(
                chats[i].id.as_str(),
                thread_id.as_str(),
            ),
            EventRoute::Ordinary => i == active,
        };
        if named {
            assert(route_names(*route, chats@, active, i as int));
            return Some(i);
        }
        i += 1;
    }
    None
}

/// Whether the spinner turns: some chat has a request in flight.
pub fn any_busy(chats: &Vec<Chat>) -> (r: bool)
    ensures
        r <==> exists|i: int| 0 <= i < chats@.len() && !((#[trigger] chats@[i]).lifecycle is Idle),
{
    let mut i: usize = 0;
    while i < chats.len()
        invariant
            i <= chats@.len(),
            forall|k: int| 0 <= k < i ==> (#[trigger] chats@[k]).lifecycle is Idle,
        decreases chats@.len() - i,
    {
        if chats[i].lifecycle.is_busy() {
            return true;
        }
        i += 1;
    }
    false
}

/// Notes which thread is active. Returns the thread whose id is to be stored:
/// the active one, where it differs from the one noted before.
pub fn note_active_thread(noted: &mut Option<String>, current: Option<&str>) -> (r: Option<String>)
    ensures
        text::optional(*final(noted)) == text::optional_str(current),
        text::optional(r) == (if text::optional(*old(noted)) == text::optional_str(current) {
            None
        } else {
            text::optional_str(current)
        }),
{
    let same = match (&*noted, current) {
        (Some(t), Some(c)) => text::same_text(t.as_str(), c),
        (None, None) => true,
        _ => false,
    };
    if same {
        return None;
    }
    match current {
        Some(c) => {
            *noted = Some(text::owned(c));
            Some(text::owned(c))
        },
        None => {
            *noted = None;
            None
        },
    }
}

/// `s` with every line end as a newline.
pub open spec fn unix_newlines(s: Seq<char>) -> Seq<char>
    decreases s.len(),
{
    if s.len() == 0 {
        Seq::empty()
    } else if s.last() == '\n' && s.len() >= 2 && s[s.len() - 2] == '\r' {
        unix_newlines(s.take(s.len() - 2)).push('\n')
    } else if s.last() == '\r' {
        unix_newlines(s.drop_last()).push('\n')
    } else {
        unix_newlines(s.drop_last()).push(s.last())
    }
}

fn normalize_newlines(s: &str) -> (r: String)
    ensures
        r@ == unix_newlines(s@),
{
    let chars = text::to_chars(s);
    let mut out = String::new();
    let mut i: usize = 0;
    assert(s@.take(0) =~= Seq::empty());
    while i < chars.len()
        invariant
            chars@ == s@,
            i <= chars@.len(),
            out@ == unix_newlines(s@.take(i as int)),
            i > 0 && i < chars@.len() ==> !(chars@[i - 1] == '\r' && chars@[i as int] == '\n'),
        decreases chars@.len() - i,
    {
        let c = chars[i];
        proof {
            assert(s@.take(i + 1).drop_last() =~= s@.take(i as int));
            assert(s@.take(i + 1).last() == c);
        }
        if c == '\r' && i < chars.len() - 1 && chars[i + 1] == '\n' {
            out.push('\n');
            proof {
                assert(s@.take(i + 2).take(i as int) =~= s@.take(i as int));
                assert(s@.take(i + 2).last() == '\n');
                assert(s@.take(i + 2)[i as int] == '\r');
            }
            i += 2;
        } else if c == '\r' {
            out.push('\n');
            i += 1;
        } else {
            out.push(c);
            i += 1;
        }
    }
    assert(s@.take(i as int) =~= s@);
    out
}

/// Whether pasted text reaches the draft: the editor owns the keyboard, and no
/// popup is open.
pub open spec fn takes_paste(mode: Mode, focus: Focus, error_popup: bool, quit_confirm: bool) -> bool {
    mode is Normal && focus == Focus::Chat && !error_popup && !quit_confirm
}

/// What a paste inserts into the draft, `None` where nothing. A paste never
/// sends the draft.
pub fn handle_paste(
    pasted: &str,
    mode: &Mode,
    focus: Focus,
    error_popup: bool,
    quit_confirm: bool,
) -> (r: Option<String>)
    ensures
        r is Some <==> takes_paste(*mode, focus, error_popup, quit_confirm) && unix_newlines(
            pasted@,
        ).len() > 0,
        r matches Some(s) ==> s@ == unix_newlines(pasted@),
{
    let chat_focused = match focus {
        Focus::Chat => true,
        Focus::Sidebar => false,
    };
    if quit_confirm || error_popup || !mode.is_normal() || !chat_focused {
        return None;
    }
    let normalized = normalize_newlines(pasted);
    if normalized.as_str().is_empty() {
        None
    } else {
        Some(normalized)
    }
}

/// No carriage return of a foreign clipboard reaches the draft.
pub proof fn law_paste_has_no_carriage_return(s: Seq<char>)
    ensures
        !unix_newlines(s).contains('\r'),
    decreases s.len(),
{
    if s.len() > 0 {
        let n = unix_newlines(s);
        if s.last() == '\n' && s.len() >= 2 && s[s.len() - 2] == '\r' {
            law_paste_has_no_carriage_return(s.take(s.len() - 2));
            let before = unix_newlines(s.take(s.len() - 2));
            assert forall|k: int| 0 <= k < n.len() implies n[k] != '\r' by {
                if k < before.len() {
                    assert(before.contains(before[k]));
                }
            }
        } else {
            law_paste_has_no_carriage_return(s.drop_last());
            let before = unix_newlines(s.drop_last());
            assert forall|k: int| 0 <= k < n.len() implies n[k] != '\r' by {
                if k < before.len() {
                    assert(before.contains(before[k]));
                }
            }
        }
    }
}

/// Text without carriage returns is pasted as it is.
pub proof fn law_plain_paste_verbatim(s: Seq<char>)
    requires
        !s.contains('\r'),
    ensures
        unix_newlines(s) == s,
    decreases s.len(),
{
    if s.len() > 0 {
        assert(s.contains(s.last()));
        assert forall|k: int| 0 <= k < s.drop_last().len() implies s.drop_last()[k] != '\r' by {
            assert(s.contains(s[k]));
        }
        if s.len() >= 2 {
            assert(s.contains(s[s.len() - 2]));
        }
        law_plain_paste_verbatim(s.drop_last());
        assert(s.drop_last().push(s.last()) =~= s);
    }
}

/// The link to the backend after an attempt to connect.
#[derive(Debug, PartialEq, Eq)]
pub struct LinkState {
    pub source: Source,
    pub connection: Connection,
    /// What the error popup says; `None` where it is closed.
    pub error: Option<String>,
}

/// The link while a reconnect is under way.
pub fn connecting(error: Option<String>) -> (r: LinkState)
    ensures
        r == (LinkState {
            source: Source::LivePlaceholder,
            connection: Connection::Connecting,
            error,
        }),
{
    LinkState { source: Source::LivePlaceholder, connection: Connection::Connecting, error }
}

/// The link after a reconnect: up, with the popup closed, or down, with the
/// failure in the popup.
pub fn connect_live(outcome: Result<(), BackendError>) -> (r: LinkState)
    ensures
        match outcome {
            Ok(_) => r.source == Source::Live && r.connection == Connection::Connected && r.error
                is None,
            Err(e) => r.source == Source::LivePlaceholder && r.connection
                == Connection::Disconnected && text::optional(r.error) == Some(e.words()),
        },
{
    match outcome {
        Ok(_) => LinkState {
            source: Source::Live,
            connection: Connection::Connected,
            error: None,
        },
        Err(e) => LinkState {
            source: Source::LivePlaceholder,
            connection: Connection::Disconnected,
            error: Some(e.to_text()),
        },
    }
}

/// What follows a first connect that failed.
#[derive(Debug)]
pub enum StartStep {
    /// Show the setup screen.
    SetupScreen,
    /// Start without a backend.
    Offline(LinkState),
}

/// Decides what follows a first connect that failed: a missing backend gets the
/// setup screen; any other failure leaves the program up, with the error shown.
pub fn first_connect_failed(error: &BackendError, backend_bin: Option<&str>) -> (r: StartStep)
    ensures
        r is SetupScreen <==> error is Spawn && backend_bin is None,
        r matches StartStep::Offline(link) ==> link.source == Source::LivePlaceholder
            && link.connection == Connection::Disconnected && text::optional(link.error) == Some(
            error.words() + "\n(hint: use --mock for the offline demo mode)"@,
        ),
{
    if applies(error, backend_bin) {
        return StartStep::SetupScreen;
    }
    let words = error.to_text();
    StartStep::Offline(
        LinkState {
            source: Source::LivePlaceholder,
            connection: Connection::Disconnected,
            error: Some(
                text::concat(
                    words.as_str(),
                    "\n(hint: use --mock for the offline demo mode)",
                ),
            ),
        },
    )
}

/// The chats to start with: the stored ones, or a fresh one where there are
/// none.
pub fn startup_chats(stored: Vec<Chat>, fresh_id: &str) -> (r: Vec<Chat>)
    ensures
        stored@.len() > 0 ==> r@ == stored@,
        stored@.len() == 0 ==> mock::chat_views(r@) == seq![
            mock::resting("New chat 1"@, fresh_id@, Seq::empty()),
        ],
{
    if stored.len() > 0 {
        return stored;
    }
    let mut chats: Vec<Chat> = Vec::new();
    let none: Vec<crate::model::Message> = Vec::new();
    assert(model::message_views(none@) =~= Seq::empty());
    chats.push(chat("New chat 1", fresh_id, none));
    assert(mock::chat_views(chats@) =~= seq![
        mock::resting("New chat 1"@, fresh_id@, Seq::empty()),
    ]);
    chats
}

/// The chat to start on: the one whose id was stored last, where it is still
/// there, else the first.
pub fn startup_selection(chats: &Vec<Chat>, pointer: Option<&str>) -> (r: usize)
    ensures
        match pointer {
            Some(id) => if exists|k: int| 0 <= k < chats@.len() && (#[trigger] chats@[k]).id@ == id@ {
                r < chats@.len() && chats@[r as int].id@ == id@ && forall|k: int|
                    0 <= k < r ==> (#[trigger] chats@[k]).id@ != id@
            } else {
                r == 0
            },
            None => r == 0,
        },
{
    match pointer {
        Some(id) => {
            let mut i: usize = 0;
            while i < chats.len()
                invariant
                    i <= chats@.len(),
                    pointer == Some(id),
                    forall|k: int| 0 <= k < i ==> (#[trigger] chats@[k]).id@ != id@,
                decreases chats@.len() - i,
            {
                if text::same_text(chats[i].id.as_str(), id) {
                    return i;
                }
                i += 1;
            }
            0
        },
        None => 0,
    }
}

/// A bare Enter in the editor submits the draft where nothing else wants it.
pub proof fn law_bare_enter_submits(before: KeySnapshot, key: KeyEvent, now: KeyOutcome)
    requires
        key.code == KeyCode::Enter,
        !key.modifiers.control && !key.modifiers.shift && !key.modifiers.alt
            && !key.modifiers.other,
        !before.renaming && !before.confirming_delete && !before.confirming_stop_reset
            && !before.searching && !before.searching_all && !before.sidebar_focused
            && !before.model_picking && !before.help_viewing && !before.log_viewing
            && !before.quit_confirm,
        now.normal_mode,
        !now.error_popup,
        now.source == Source::Live || now.source == Source::Mock,
    ensures
        key_follow_up(before, key, now) == AfterKey::Submit,
{
}

/// Each surface that is open keeps Enter to itself.
pub proof fn law_open_surface_keeps_enter(before: KeySnapshot, key: KeyEvent, now: KeyOutcome)
    requires
        before.confirming_delete || before.confirming_stop_reset || before.searching
            || before.searching_all || before.sidebar_focused || before.model_picking
            || before.help_viewing || before.log_viewing || before.quit_confirm,
    ensures
        key_follow_up(before, key, now) != AfterKey::Submit,
{
}

/// A rename is stored if and only if its Enter took effect and changed the name.
pub proof fn law_rename_is_stored(before: KeySnapshot, key: KeyEvent, now: KeyOutcome)
    ensures
        key_follow_up(before, key, now) == AfterKey::PersistRename <==> (before.renaming
            && key.code == KeyCode::Enter && now.normal_mode && now.name_changed),
{
}

/// Whatever was staged is done, each thing once and in order: the three kinds of
/// requests, the deletion, the reconnect and the cancel.
pub proof fn law_everything_staged_is_done(staged: Staged, source: Source)
    ensures
        ({
            let plan = staged_plan(staged, source);
            let one = |b: bool|
                if b {
                    1int
                } else {
                    0int
                };
            let a = one(staged.picker is Some);
            let b = a + one(staged.clone_thread is Some);
            let c = b + one(staged.control is Some);
            let d = c + one(staged.delete is Some);
            let e = d + one(staged.reconnect);
            &&& plan.len() == e + one(staged.cancel is Some)
            &&& staged.picker matches Some(s) ==> plan[0] == LoopAction::Send(s)
            &&& staged.clone_thread matches Some(s) ==> plan[a] == LoopAction::Send(s)
            &&& staged.control matches Some(s) ==> plan[b] == LoopAction::Send(s)
            &&& staged.delete matches Some(id) ==> plan[c] == LoopAction::DeleteHistory(id)
            &&& staged.reconnect ==> plan[d] == if source == Source::Mock {
                LoopAction::DismissError
            } else {
                LoopAction::Reconnect
            }
            &&& staged.cancel matches Some((r, t)) ==> plan[e] == (LoopAction::Cancel {
                request_id: r,
                thread_id: t,
            })
        }),
{
}

/// Pasted text is taken over piece by piece: cut anywhere but inside a line end,
/// its parts are taken over one by one. A lone carriage return and one with a line
/// feed behind it are one line break each; any other character stays.
pub proof fn law_paste_piecewise(a: Seq<char>, b: Seq<char>)
    requires
        !(a.len() > 0 && a.last() == '\r' && b.len() > 0 && b[0] == '\n'),
    ensures
        unix_newlines(a + b) == unix_newlines(a) + unix_newlines(b),
    decreases b.len(),
{
    let s = a + b;
    if b.len() == 0 {
        assert(s =~= a);
        assert(unix_newlines(a) + unix_newlines(b) =~= unix_newlines(a));
    } else if b.last() == '\n' && b.len() >= 2 && b[b.len() - 2] == '\r' {
        let front = b.take(b.len() - 2);
        law_paste_piecewise(a, front);
        assert(s.take(s.len() - 2) =~= a + front);
        assert(s[s.len() - 2] == '\r');
        assert(unix_newlines(s) =~= unix_newlines(a) + unix_newlines(b));
    } else {
        let front = b.drop_last();
        law_paste_piecewise(a, front);
        assert(s.drop_last() =~= a + front);
        assert(s.last() == b.last());
        if s.last() == '\n' && s.len() >= 2 && s[s.len() - 2] == '\r' {
            if b.len() >= 2 {
                assert(s[s.len() - 2] == b[b.len() - 2]);
            } else {
                assert(s[s.len() - 2] == a.last());
            }
        }
        assert(unix_newlines(s) =~= unix_newlines(a) + unix_newlines(b));
    }
}

/// Every kind of line end becomes one line feed.
pub proof fn law_line_ends_become_line_feeds(c: char)
    ensures
        unix_newlines(seq!['\r', '\n']) == seq!['\n'],
        unix_newlines(seq!['\r']) == seq!['\n'],
        c != '\r' ==> unix_newlines(seq![c]) == seq![c],
{
    reveal_with_fuel(unix_newlines, 3);
    let both = seq!['\r', '\n'];
    assert(both.take(0) =~= Seq::empty());
    assert(unix_newlines(both) =~= seq!['\n']);
    assert(seq!['\r'].drop_last() =~= Seq::empty());
    assert(unix_newlines(seq!['\r']) =~= seq!['\n']);
    assert(seq![c].drop_last() =~= Seq::empty());
    if c != '\r' {
        assert(unix_newlines(seq![c]) =~= seq![c]);
    }
}

/// A paste reaches the draft where the editor has the keyboard, and nowhere else.
pub proof fn law_paste_needs_the_editor(mode: Mode, focus: Focus, error_popup: bool, quit_confirm: bool)
    ensures
        takes_paste(mode, focus, error_popup, quit_confirm) <==> (mode is Normal && focus
            == Focus::Chat && !error_popup && !quit_confirm),
{
}

/// A submission goes whole to a running backend, its prompt to the demo, and
/// nowhere while the backend is down: the chat that asked is told.
pub proof fn law_submission_is_routed(source: Source, submitted: &Submitted, r: SendRoute)
    requires
        call_ensures(send_submitted, (source, submitted), r),
    ensures
        source == Source::Live ==> (r matches SendRoute::Live(s) && s.request_id@
            == submitted.request_id@ && s.thread_id@ == submitted.thread_id@ && s.prompt@
            == submitted.prompt@),
        source == Source::Mock ==> (r matches SendRoute::Mock(prompt) && prompt@
            == submitted.prompt@),
        source == Source::LivePlaceholder ==> (r matches SendRoute::Offline(
            BackendEvent::Error { message, thread_id, .. },
        ) && message@ == "backend is offline; prompt not sent"@ && (thread_id matches Some(t) && t@
            == submitted.thread_id@)),
{
}

/// An event is stored with the chat that it is about: an answer out of turn with
/// the chat of its number, the signal to go on with the chat that it names, every
/// other with the active one.
pub proof fn law_event_is_stored_with_its_chat(
    event: &BackendEvent,
    route: &EventRoute,
    chats: &Vec<Chat>,
    active: usize,
    r: Option<usize>,
)
    requires
        call_ensures(route_event, (event,), *route),
        call_ensures(chat_to_persist, (route, chats, active), r),
    ensures
        event matches BackendEvent::BackgroundMessage { wire_thread_id: id, .. } ==> (r matches Some(
            i,
        ) ==> live::wire_id(chats@[i as int].id@) == id),
        event matches BackendEvent::QueueDrain { thread_id } ==> (r matches Some(i)
            ==> chats@[i as int].id@ == thread_id@),
        !(event is BackgroundMessage) && !(event is QueueDrain) ==> (r matches Some(i) ==> i
            == active),
        r matches Some(i) ==> i < chats@.len(),
{
}

/// The spinner turns while any chat is busy.
pub proof fn law_any_busy_chat_counts(chats: &Vec<Chat>, r: bool, i: int)
    requires
        call_ensures(any_busy, (chats,), r),
        0 <= i < chats@.len(),
    ensures
        chats@[i].lifecycle.in_flight() is Some ==> r,
        !r ==> chats@[i].lifecycle is Idle,
{
}

/// A change of the active chat is noted once, with the chat that is active now.
pub proof fn law_change_is_noted_once(
    first: &mut Option<String>,
    again: &mut Option<String>,
    current: Option<&str>,
    r1: Option<String>,
    r2: Option<String>,
)
    requires
        call_ensures(note_active_thread, (first, current), r1),
        *old(again) == *final(first),
        call_ensures(note_active_thread, (again, current), r2),
    ensures
        r2 is None,
        text::optional(*old(first)) != text::optional_str(current) ==> text::optional(r1)
            == text::optional_str(current),
        text::optional(*old(first)) == text::optional_str(current) ==> r1 is None,
        text::optional(*final(again)) == text::optional_str(current),
{
}

/// A paste into the editor puts the pasted text there with plain line feeds; one
/// without line ends of another kind as it came.
pub proof fn law_paste_reaches_the_draft(
    pasted: &str,
    mode: &Mode,
    focus: Focus,
    error_popup: bool,
    quit_confirm: bool,
    r: Option<String>,
)
    requires
        call_ensures(handle_paste, (pasted, mode, focus, error_popup, quit_confirm), r),
        pasted@.len() > 0,
        !pasted@.contains('\r'),
    ensures
        mode is Normal && focus == Focus::Chat && !error_popup && !quit_confirm ==> (r matches Some(
            s,
        ) && s@ == pasted@),
        !(mode is Normal) || focus != Focus::Chat || error_popup || quit_confirm ==> r is None,
{
    law_plain_paste_verbatim(pasted@);
}

/// A connection that came up is live; one that failed is down and says why.
pub proof fn law_link_tells_the_outcome(outcome: Result<(), BackendError>, r: LinkState)
    requires
        call_ensures(connect_live, (outcome,), r),
    ensures
        outcome is Ok ==> r.source == Source::Live && r.connection == Connection::Connected
            && r.error is None,
        outcome matches Err(e) ==> r.source == Source::LivePlaceholder && r.connection
            == Connection::Disconnected && (r.error matches Some(s) && s@ == e.words()),
{
}

/// A first start without a backend shows the setup screen where no other backend
/// was named, and else starts offline with the reason.
pub proof fn law_first_start_without_backend(
    error: &BackendError,
    backend_bin: Option<&str>,
    r: StartStep,
)
    requires
        call_ensures(first_connect_failed, (error, backend_bin), r),
    ensures
        error is Spawn && backend_bin is None <==> r is SetupScreen,
        r matches StartStep::Offline(link) ==> link.source == Source::LivePlaceholder && (
        link.error matches Some(s) && error.words().is_prefix_of(s@)),
{
    if r is Offline {
        let s = r->Offline_0.error->0@;
        let hint = "\n(hint: use --mock for the offline demo mode)"@;
        assert(error.words() =~= s.take(error.words().len() as int));
    }
}

/// The stored chats come back as they were; without any the program begins with
/// one empty chat.
pub proof fn law_stored_chats_come_back(stored: Vec<Chat>, fresh_id: &str, r: Vec<Chat>)
    requires
        call_ensures(startup_chats, (stored, fresh_id), r),
    ensures
        stored@.len() > 0 ==> r@ == stored@,
        stored@.len() == 0 ==> r@.len() == 1 && r@[0]@.id == fresh_id@ && r@[0]@.messages.len() == 0
            && r@[0]@.lifecycle is Idle,
{
    assert(mock::chat_views(r@).len() == r@.len());
    if stored@.len() == 0 {
        assert(mock::chat_views(r@)[0] == r@[0]@);
    }
}

/// The chat that was active last is active again, where it is still there.
pub proof fn law_last_chat_is_active_again(chats: &Vec<Chat>, pointer: Option<&str>, r: usize, k: int)
    requires
        call_ensures(startup_selection, (chats, pointer), r),
        0 <= k < chats@.len(),
        pointer matches Some(id) && chats@[k].id@ == id@,
    ensures
        r <= k,
        chats@[r as int].id@ == pointer->0@,
{
    assert(chats@[k].id@ == pointer->0@);
}

/// A draft that was taken is sent and stored; a queued one is stored.
pub proof fn law_taken_draft_is_stored(taken: bool, queued: usize, r: AfterTake)
    requires
        call_ensures(after_take, (taken, queued), r),
    ensures
        taken <==> r == AfterTake::SendAndPersist,
        !taken && queued > 0 ==> r == AfterTake::Persist,
        !taken && queued == 0 ==> r == AfterTake::Nothing,
{
}

/// What owns the keyboard is told by the mode, the focus and the quit question.
pub proof fn law_snapshot_tells_the_mode(
    mode: &Mode,
    focus: Focus,
    quit_confirm: bool,
    r: KeySnapshot,
)
    requires
        call_ensures(key_snapshot, (mode, focus, quit_confirm), r),
    ensures
        r.renaming <==> mode is Renaming,
        r.confirming_delete <==> mode is ConfirmDelete,
        r.confirming_stop_reset <==> mode is ConfirmStopReset,
        r.searching <==> mode is Searching,
        r.searching_all <==> mode is SearchingAll,
        r.model_picking <==> mode is ModelPicking,
        r.help_viewing <==> mode is HelpViewing,
        r.log_viewing <==> mode is LogViewer,
        r.sidebar_focused <==> focus == Focus::Sidebar,
        r.quit_confirm == quit_confirm,
{
}

/// A route names the chats that it is about, and no other.
pub proof fn law_routes_name_their_chats(chats: Seq<Chat>, active: usize, i: int, id: i64, t: String)
    ensures
        route_names(EventRoute::Background(id), chats, active, i) <==> live::wire_id(chats[i].id@)
            == id,
        route_names(EventRoute::Drain(t), chats, active, i) <==> chats[i].id@ == t@,
        route_names(EventRoute::Ordinary, chats, active, i) <==> i == active,
{
}

} // verus!
