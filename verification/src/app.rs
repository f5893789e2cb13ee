//! The state that the views and the event routing read.

use std::collections::VecDeque;
use vstd::prelude::*;
use crate::model::{ChatLifecycle, Message};
use crate::model_picker::ModelEntry;

verus! {

/// Which panel holds the keyboard.
#[derive(Clone, Copy, Debug, PartialEq, Eq, Structural)]
pub enum Focus {
    Chat,
    Sidebar,
}

/// State of the link to the backend.
#[derive(Clone, Copy, Debug, PartialEq, Eq, Structural)]
pub enum Connection {
    Connected,
    Connecting,
    Disconnected,
}

/// An accepted submission, with its own ids.
#[derive(Debug, PartialEq, Eq)]
pub struct Submitted {
    pub request_id: String,
    /// Stable id of the chat that it belongs to.
    pub thread_id: String,
    pub prompt: String,
}

/// One chat thread.
#[derive(Debug)]
pub struct Chat {
    pub name: String,
    /// Stable identity, kept across restarts.
    pub id: String,
    pub messages: Vec<Message>,
    pub lifecycle: ChatLifecycle,
    /// Prompts that wait for the request in flight, the next one first.
    pub queue: VecDeque<Submitted>,
    /// Whether a reply came in unseen.
    pub unread: bool,
    /// The raw reasoning behind the latest answer.
    pub last_thoughts: Option<String>,
}

/// A search hit in the active thread.
#[derive(Debug, PartialEq, Eq)]
pub struct SearchMatch {
    pub message_index: usize,
    /// The hit's line within its message.
    pub line_index: usize,
    /// The hit's first character within its line.
    pub col: usize,
    pub line_text: String,
}

/// A search hit in any thread.
#[derive(Debug, PartialEq, Eq)]
pub struct GlobalSearchMatch {
    pub chat_index: usize,
    pub chat_title: String,
    pub message_index: usize,
    pub line_index: usize,
    pub col: usize,
    pub line_text: String,
}

/// The search popup of the active thread.
#[derive(Debug, PartialEq, Eq)]
pub struct SearchState {
    pub query: String,
    pub matches: Vec<SearchMatch>,
    pub selected: usize,
}

/// The search popup over all threads.
#[derive(Debug, PartialEq, Eq)]
pub struct GlobalSearchState {
    pub query: String,
    pub matches: Vec<GlobalSearchMatch>,
    pub selected: usize,
}

/// Which guarded command the stop/reset popup asks about.
#[derive(Clone, Copy, Debug, PartialEq, Eq, Structural)]
pub enum StopResetAction {
    Stop,
    Reset,
}

/// Severity of a diagnostics line.
#[derive(Clone, Copy, Debug, PartialEq, Eq, Structural)]
pub enum LogLevel {
    Trace,
    Debug,
    Info,
    Success,
    Warning,
    Error,
    Critical,
    Tool,
    Think,
    Call,
    Check,
    Moderator,
    Subagent,
    Delegate,
}

/// One diagnostics line.
#[derive(Debug, PartialEq, Eq)]
pub struct LogEntry {
    pub text: String,
    /// The severity, where the line has a known one.
    pub level: Option<LogLevel>,
}

/// A search in the diagnostics log.
#[derive(Debug, PartialEq, Eq)]
pub struct LogSearch {
    pub pattern: String,
    /// The lines with a hit, in order.
    pub matches: Vec<usize>,
    /// Which of them is the current one.
    pub current: Option<usize>,
}

/// The diagnostics-log viewer.
#[derive(Debug, PartialEq, Eq)]
pub struct LogViewerState {
    pub lines: Vec<LogEntry>,
    pub cursor: usize,
    pub wrap: bool,
    /// How many lines the log had ever got when `lines` was taken.
    pub snapshot_total: u64,
    /// First display row on screen.
    pub row_offset: usize,
    /// The search pattern being typed.
    pub search_buf: Option<String>,
    pub search: Option<LogSearch>,
    /// Feedback on a copy.
    pub copy_note: Option<String>,
}

/// Whether the model picker has its listing.
#[derive(Clone, Copy, Debug, PartialEq, Eq, Structural)]
pub enum ModelPickerPhase {
    Loading,
    Ready,
}

/// The model picker.
#[derive(Debug, PartialEq, Eq)]
pub struct ModelPickerState {
    pub phase: ModelPickerPhase,
    pub entries: Vec<ModelEntry>,
    pub selected: usize,
}

/// Which surface owns the keyboard.
#[derive(Debug, PartialEq, Eq)]
pub enum Mode {
    Normal,
    Renaming { buf: String },
    ConfirmDelete,
    ConfirmStopReset { action: StopResetAction },
    Searching { state: SearchState },
    SearchingAll { state: GlobalSearchState },
    LogViewer { state: LogViewerState },
    ModelPicking { state: ModelPickerState },
    HelpViewing { scroll: usize },
}

impl Mode {
    pub fn is_normal(&self) -> (r: bool)
        ensures
            r == (self is Normal),
    {
        match self {
            Mode::Normal => true,
            _ => false,
        }
    }
}

/// A position in the transcript: a display row and a character in it.
#[derive(Clone, Copy, Debug, PartialEq, Eq, Structural)]
pub struct ChatPos {
    pub row: usize,
    pub col: usize,
}

impl ChatPos {
    /// Whether this position comes no later than `other` in reading order.
    pub open spec fn before_or_at(self, other: ChatPos) -> bool {
        self.row < other.row || (self.row == other.row && self.col <= other.col)
    }
}

/// A text selection in the transcript.
#[derive(Clone, Copy, Debug, PartialEq, Eq, Structural)]
pub struct ChatSelection {
    /// Where the press went down.
    pub anchor: ChatPos,
    /// Where the drag stands.
    pub head: ChatPos,
    /// Whether the button is still down.
    pub dragging: bool,
}

impl ChatSelection {
    /// The two ends in reading order.
    pub open spec fn ends(self) -> (ChatPos, ChatPos) {
        if self.anchor.before_or_at(self.head) {
            (self.anchor, self.head)
        } else {
            (self.head, self.anchor)
        }
    }

    /// The two ends in reading order.
    pub fn ordered(&self) -> (r: (ChatPos, ChatPos))
        ensures
            r == self.ends(),
            r.0.before_or_at(r.1),
    {
        if self.anchor.row < self.head.row || (self.anchor.row == self.head.row
            && self.anchor.col <= self.head.col) {
            (self.anchor, self.head)
        } else {
            (self.head, self.anchor)
        }
    }
}

/// Where a display row of the transcript comes from.
#[derive(Debug)]
pub struct ChatRowMeta {
    /// The logical line that the row belongs to.
    pub logical: usize,
    /// First character of the row within the logical line.
    pub start: usize,
    /// One past the last character of the row within the logical line.
    pub end: usize,
    /// The row's text.
    pub text: String,
}

/// What a [`ChatRowMeta`] holds.
#[verifier::ext_equal]
pub struct ChatRowMetaView {
    pub logical: int,
    pub start: int,
    pub end: int,
    pub text: Seq<char>,
}

impl View for ChatRowMeta {
    type V = ChatRowMetaView;

    open spec fn view(&self) -> ChatRowMetaView {
        ChatRowMetaView {
            logical: self.logical as int,
            start: self.start as int,
            end: self.end as int,
            text: self.text@,
        }
    }
}

/// What a list of [`ChatRowMeta`] holds.
pub open spec fn meta_views(v: Seq<ChatRowMeta>) -> Seq<ChatRowMetaView> {
    Seq::new(v.len(), |i: int| v[i]@)
}

} // verus!
