//! Messages of the IDE protocol, version one: one JSON object per line, each
//! with a string `type` tag. These are the bare values; their JSON form is
//! written and read at the edge of the program.

use vstd::prelude::*;
use crate::text;

verus! {

/// Protocol version negotiated during the handshake. Only version one exists,
/// so a handshake with any other version is turned away.
#[derive(Clone, Copy, Debug, PartialEq, Eq, Structural)]
pub struct ProtocolVersion;

/// The one supported protocol version, as it stands on the wire.
pub const SUPPORTED_VERSION: u64 = 1;

impl ProtocolVersion {
    /// The one supported protocol version.
    pub fn current() -> (r: ProtocolVersion)
        ensures
            r == ProtocolVersion,
    {
        ProtocolVersion
    }

    /// The number that stands for this version on the wire.
    pub fn number(self) -> (r: u64)
        ensures
            r == SUPPORTED_VERSION,
    {
        SUPPORTED_VERSION
    }

    /// Reads a version off the wire; anything but the supported one is refused
    /// with a message that names it.
    pub fn from_number(v: u64) -> (r: Result<ProtocolVersion, String>)
        ensures
            r is Ok <==> v == SUPPORTED_VERSION,
            r matches Err(message) ==> message@ == "unsupported protocol version: "@
                + text::decimal(v as nat) + " (supported: 1)"@,
    {
        if v == SUPPORTED_VERSION {
            Ok(ProtocolVersion)
        } else {
            let number = text::decimal_string(v);
            Err(
                text::concat3(
                    "unsupported protocol version: ",
                    number.as_str(),
                    " (supported: 1)",
                ),
            )
        }
    }
}

/// Client identification sent with `initialize`.
#[derive(Debug, PartialEq, Eq)]
pub struct ClientInfo {
    pub name: String,
    pub version: String,
}

/// Server identification returned in `ready`.
#[derive(Debug, PartialEq, Eq)]
pub struct ServerInfo {
    pub name: String,
    pub version: String,
}

/// Slash-command set advertised by the backend in `ready`.
#[derive(Debug, PartialEq, Eq)]
pub struct Capabilities {
    pub commands: Vec<String>,
}

/// Feature flags the client advertises during the handshake.
#[derive(Clone, Copy, Debug, PartialEq, Eq, Structural)]
pub struct ClientCapabilities {
    pub thoughts: bool,
    /// Opts in to mid-turn `agent_event` frames (subagent progress).
    pub subagents: bool,
    /// Opts in to out-of-band `message` frames: continuation answers that the
    /// backend produces after a background tool result arrives.
    pub background_messages: bool,
    /// Opts in to `cwd_update` frames: the effective working directory of a
    /// thread.
    pub cwd_updates: bool,
}

/// Kind of a mid-turn `agent_event` frame: a subagent began or ended.
#[derive(Clone, Copy, Debug, PartialEq, Eq, Structural)]
pub enum AgentEventKind {
    Started,
    Finished,
}

impl AgentEventKind {
    pub fn as_str(self) -> (r: &'static str)
        ensures
            r@ == match self {
                AgentEventKind::Started => "started"@,
                AgentEventKind::Finished => "finished"@,
            },
    {
        match self {
            AgentEventKind::Started => "started",
            AgentEventKind::Finished => "finished",
        }
    }
}

/// Token accounting for the turn that produced a `result` frame.
#[derive(Clone, Copy, Debug, PartialEq, Eq, Structural)]
pub struct Usage {
    pub input_tokens: u64,
    pub output_tokens: u64,
    /// Absent when the backend cannot know it.
    pub context_window: Option<u64>,
}

/// Zero-based half-open line range of the editor selection.
#[derive(Debug, PartialEq, Eq)]
pub struct Selection {
    pub start_line: u64,
    pub end_line: u64,
    pub text: String,
}

/// Zero-based cursor position inside the active file.
#[derive(Clone, Copy, Debug, PartialEq, Eq, Structural)]
pub struct CursorPosition {
    pub line: u64,
    pub character: u64,
}

/// Messages written to the backend's stdin.
#[derive(Debug, PartialEq, Eq)]
pub enum ClientMessage {
    /// Handshake; must be the first client message.
    Initialize {
        protocol_version: ProtocolVersion,
        client: Option<ClientInfo>,
        capabilities: Option<ClientCapabilities>,
    },
    /// Start work on a prompt, with editor context.
    Request {
        request_id: String,
        thread_id: i64,
        prompt: String,
        workspace_root: String,
        active_file: Option<String>,
        selection: Option<Selection>,
        cursor_position: Option<CursorPosition>,
        language_id: Option<String>,
    },
    /// Ask for the effective working directory of a thread.
    GetCwd { thread_id: i64 },
    /// Cancel one in-flight request, targeted by id.
    Cancel { request_id: String },
    /// Graceful termination.
    Shutdown {  },
}

/// Coarse request lifecycle state (`status` messages carry no content).
#[derive(Clone, Copy, Debug, PartialEq, Eq, Structural)]
pub enum StatusState {
    Queued,
    Running,
}

impl StatusState {
    /// The state's name on the wire and on screen.
    pub open spec fn name(self) -> Seq<char> {
        match self {
            StatusState::Queued => "queued"@,
            StatusState::Running => "running"@,
        }
    }

    pub fn as_str(self) -> (r: &'static str)
        ensures
            r@ == self.name(),
    {
        match self {
            StatusState::Queued => "queued",
            StatusState::Running => "running",
        }
    }
}

/// Messages that the backend writes to stdout.
#[derive(Debug, PartialEq, Eq)]
pub enum ServerMessage {
    /// Handshake accepted; the negotiated version is echoed back.
    Ready {
        protocol_version: ProtocolVersion,
        server: Option<ServerInfo>,
        capabilities: Option<Capabilities>,
    },
    /// Coarse lifecycle update for a request.
    Status { request_id: String, state: StatusState },
    /// Mid-turn subagent progress for a request. It never ends the request.
    AgentEvent {
        request_id: String,
        event: AgentEventKind,
        active: u64,
        total: u64,
        name: Option<String>,
    },
    /// Final successful answer; terminal for its request.
    Result {
        request_id: String,
        content: String,
        model: Option<String>,
        provider: Option<String>,
        usage: Option<Usage>,
        thoughts: Option<String>,
    },
    /// Out-of-band continuation answer. It belongs to a thread and touches no
    /// request.
    Message {
        thread_id: i64,
        content: String,
        model: Option<String>,
        provider: Option<String>,
        thoughts: Option<String>,
    },
    /// Effective working directory of a thread. It touches no request.
    CwdUpdate { thread_id: i64, cwd: String },
    /// Failure of a request, or a global failure where there is no request id.
    Error {
        request_id: Option<String>,
        code: ErrorCode,
        server_protocol_version: Option<u64>,
        message: String,
    },
}

/// Machine-readable error codes.
#[derive(Clone, Copy, Debug, PartialEq, Eq, Structural)]
pub enum ErrorCode {
    UnsupportedProtocolVersion,
    NotInitialized,
    MalformedRequest,
    UnknownMessage,
    UnknownRequest,
    Cancelled,
    RequestFailed,
    /// Backend command or validation failure.
    InvalidRequest,
    /// Provider-side failure.
    BackendError,
    /// Provider rate limiting.
    RateLimited,
}

impl ErrorCode {
    /// The code's name in messages to the user.
    pub open spec fn label(self) -> Seq<char> {
        match self {
            ErrorCode::UnsupportedProtocolVersion => "UnsupportedProtocolVersion"@,
            ErrorCode::NotInitialized => "NotInitialized"@,
            ErrorCode::MalformedRequest => "MalformedRequest"@,
            ErrorCode::UnknownMessage => "UnknownMessage"@,
            ErrorCode::UnknownRequest => "UnknownRequest"@,
            ErrorCode::Cancelled => "Cancelled"@,
            ErrorCode::RequestFailed => "RequestFailed"@,
            ErrorCode::InvalidRequest => "InvalidRequest"@,
            ErrorCode::BackendError => "BackendError"@,
            ErrorCode::RateLimited => "RateLimited"@,
        }
    }

    /// The code's name in messages to the user.
    pub fn as_label(self) -> (r: &'static str)
        ensures
            r@ == self.label(),
    {
        match self {
            ErrorCode::UnsupportedProtocolVersion => "UnsupportedProtocolVersion",
            ErrorCode::NotInitialized => "NotInitialized",
            ErrorCode::MalformedRequest => "MalformedRequest",
            ErrorCode::UnknownMessage => "UnknownMessage",
            ErrorCode::UnknownRequest => "UnknownRequest",
            ErrorCode::Cancelled => "Cancelled",
            ErrorCode::RequestFailed => "RequestFailed",
            ErrorCode::InvalidRequest => "InvalidRequest",
            ErrorCode::BackendError => "BackendError",
            ErrorCode::RateLimited => "RateLimited",
        }
    }
}

/// Every code and every state has its own name.
pub proof fn law_names(code: ErrorCode, state: StatusState)
    ensures
        code == ErrorCode::UnsupportedProtocolVersion ==> code.label()
            == "UnsupportedProtocolVersion"@,
        code == ErrorCode::NotInitialized ==> code.label() == "NotInitialized"@,
        code == ErrorCode::MalformedRequest ==> code.label() == "MalformedRequest"@,
        code == ErrorCode::UnknownMessage ==> code.label() == "UnknownMessage"@,
        code == ErrorCode::UnknownRequest ==> code.label() == "UnknownRequest"@,
        code == ErrorCode::Cancelled ==> code.label() == "Cancelled"@,
        code == ErrorCode::RequestFailed ==> code.label() == "RequestFailed"@,
        code == ErrorCode::InvalidRequest ==> code.label() == "InvalidRequest"@,
        code == ErrorCode::BackendError ==> code.label() == "BackendError"@,
        code == ErrorCode::RateLimited ==> code.label() == "RateLimited"@,
        state == StatusState::Queued ==> state.name() == "queued"@,
        state == StatusState::Running ==> state.name() == "running"@,
{
}

} // verus!
