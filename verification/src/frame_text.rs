//! How a frame reads in a complaint: the variant's name and its fields, in the
//! form that Rust's derived `Debug` has.

use vstd::prelude::*;
use crate::protocol::{AgentEventKind, Capabilities, ServerInfo, ServerMessage, StatusState, Usage};
use crate::text;

verus! {

/// A name for the `Debug` text of a string: in quotes, with escapes.
pub uninterp spec fn quoted(s: Seq<char>) -> Seq<char>;

/// The `Debug` text of a string, by `format!`. The text depends on the string
/// alone; which characters are escaped is left to the name.
#[verifier::external_body]
fn quote(s: &str) -> (r: String)
    ensures
        r@ == quoted(s@),
{
    format!("{s:?}")
}

/// A signed number in decimal.
pub open spec fn signed(n: int) -> Seq<char> {
    if n < 0 {
        "-"@ + text::decimal((-n) as nat)
    } else {
        text::decimal(n as nat)
    }
}

/// An optional value, given its text.
pub open spec fn optional(inner: Option<Seq<char>>) -> Seq<char> {
    match inner {
        Some(s) => "Some("@ + s + ")"@,
        None => "None"@,
    }
}

/// Texts with a comma and a space between them.
pub open spec fn listed(items: Seq<Seq<char>>) -> Seq<char>
    decreases items.len(),
{
    if items.len() == 0 {
        Seq::empty()
    } else if items.len() == 1 {
        items[0]
    } else {
        listed(items.drop_last()) + ", "@ + items.last()
    }
}

/// A field of a record, given the text of its value.
pub open spec fn field(name: Seq<char>, value: Seq<char>) -> Seq<char> {
    name + ": "@ + value
}

/// A record with named fields.
pub open spec fn record(name: Seq<char>, fields: Seq<Seq<char>>) -> Seq<char> {
    name + " { "@ + (listed(fields) + " }"@)
}

/// The text of an optional string.
pub open spec fn optional_quoted(s: Option<String>) -> Seq<char> {
    optional(
        match s {
            Some(s) => Some(quoted(s@)),
            None => None,
        },
    )
}

/// The text of an optional number.
pub open spec fn optional_number(n: Option<u64>) -> Seq<char> {
    optional(
        match n {
            Some(n) => Some(text::decimal(n as nat)),
            None => None,
        },
    )
}

/// The text of a server's identification.
pub open spec fn server_text(server: ServerInfo) -> Seq<char> {
    record(
        "ServerInfo"@,
        seq![field("name"@, quoted(server.name@)), field("version"@, quoted(server.version@))],
    )
}

/// The text of a set of commands.
pub open spec fn capabilities_text(c: Capabilities) -> Seq<char> {
    record(
        "Capabilities"@,
        seq![
            field(
                "commands"@,
                "["@ + listed(Seq::new(c.commands@.len(), |i: int| quoted(c.commands@[i]@))) + "]"@,
            ),
        ],
    )
}

/// The text of a token accounting.
pub open spec fn usage_text(usage: Usage) -> Seq<char> {
    record(
        "Usage"@,
        seq![
            field("input_tokens"@, text::decimal(usage.input_tokens as nat)),
            field("output_tokens"@, text::decimal(usage.output_tokens as nat)),
            field("context_window"@, optional_number(usage.context_window)),
        ],
    )
}

/// The name of a frame's variant.
pub open spec fn frame_name(frame: ServerMessage) -> Seq<char> {
    match frame {
        ServerMessage::Ready { .. } => "Ready"@,
        ServerMessage::Status { .. } => "Status"@,
        ServerMessage::AgentEvent { .. } => "AgentEvent"@,
        ServerMessage::Result { .. } => "Result"@,
        ServerMessage::Message { .. } => "Message"@,
        ServerMessage::CwdUpdate { .. } => "CwdUpdate"@,
        ServerMessage::Error { .. } => "Error"@,
    }
}

/// The fields of a frame, written out.
pub open spec fn frame_fields(frame: ServerMessage) -> Seq<Seq<char>> {
    match frame {
        ServerMessage::Ready { server, capabilities, .. } => seq![
            field("protocol_version"@, "ProtocolVersion"@),
            field(
                "server"@,
                optional(
                    match server {
                        Some(s) => Some(server_text(s)),
                        None => None,
                    },
                ),
            ),
            field(
                "capabilities"@,
                optional(
                    match capabilities {
                        Some(c) => Some(capabilities_text(c)),
                        None => None,
                    },
                ),
            ),
        ],
        ServerMessage::Status { request_id, state } => seq![
            field("request_id"@, quoted(request_id@)),
            field(
                "state"@,
                match state {
                    StatusState::Queued => "Queued"@,
                    StatusState::Running => "Running"@,
                },
            ),
        ],
        ServerMessage::AgentEvent { request_id, event, active, total, name } => seq![
            field("request_id"@, quoted(request_id@)),
            field(
                "event"@,
                match event {
                    AgentEventKind::Started => "Started"@,
                    AgentEventKind::Finished => "Finished"@,
                },
            ),
            field("active"@, text::decimal(active as nat)),
            field("total"@, text::decimal(total as nat)),
            field("name"@, optional_quoted(name)),
        ],
        ServerMessage::Result { request_id, content, model, provider, usage, thoughts } => seq![
            field("request_id"@, quoted(request_id@)),
            field("content"@, quoted(content@)),
            field("model"@, optional_quoted(model)),
            field("provider"@, optional_quoted(provider)),
            field(
                "usage"@,
                optional(
                    match usage {
                        Some(u) => Some(usage_text(u)),
                        None => None,
                    },
                ),
            ),
            field("thoughts"@, optional_quoted(thoughts)),
        ],
        ServerMessage::Message { thread_id, content, model, provider, thoughts } => seq![
            field("thread_id"@, signed(thread_id as int)),
            field("content"@, quoted(content@)),
            field("model"@, optional_quoted(model)),
            field("provider"@, optional_quoted(provider)),
            field("thoughts"@, optional_quoted(thoughts)),
        ],
        ServerMessage::CwdUpdate { thread_id, cwd } => seq![
            field("thread_id"@, signed(thread_id as int)),
            field("cwd"@, quoted(cwd@)),
        ],
        ServerMessage::Error { request_id, code, server_protocol_version, message } => seq![
            field("request_id"@, optional_quoted(request_id)),
            field("code"@, code.label()),
            field("server_protocol_version"@, optional_number(server_protocol_version)),
            field("message"@, quoted(message@)),
        ],
    }
}

/// The text of a frame.
pub open spec fn frame_text(frame: ServerMessage) -> Seq<char> {
    record(frame_name(frame), frame_fields(frame))
}

fn signed_string(n: i64) -> (r: String)
    ensures
        r@ == signed(n as int),
{
    if n < 0 {
        let digits = text::decimal_string((-(n as i128)) as u64);
        text::concat("-", digits.as_str())
    } else {
        text::decimal_string(n as u64)
    }
}

fn optional_string(inner: Option<String>) -> (r: String)
    ensures
        r@ == optional(text::optional(inner)),
{
    match inner {
        Some(s) => text::concat3("Some(", s.as_str(), ")"),
        None => text::owned("None"),
    }
}

fn optional_quote(s: &Option<String>) -> (r: String)
    ensures
        r@ == optional_quoted(*s),
{
    match s {
        Some(s) => optional_string(Some(quote(s.as_str()))),
        None => optional_string(None),
    }
}

fn optional_decimal(n: Option<u64>) -> (r: String)
    ensures
        r@ == optional_number(n),
{
    match n {
        Some(n) => optional_string(Some(text::decimal_string(n))),
        None => optional_string(None),
    }
}

fn list_string(items: &Vec<String>) -> (r: String)
    ensures
        r@ == listed(text::texts(items@)),
{
    let ghost all = text::texts(items@);
    let mut out = String::new();
    let mut i: usize = 0;
    assert(out@ =~= listed(all.take(0)));
    while i < items.len()
        invariant
            i <= items@.len(),
            all == text::texts(items@),
            out@ == listed(all.take(i as int)),
        decreases items@.len() - i,
    {
        let ghost before = out@;
        if i > 0 {
            out.append(", ");
        }
        out.append(items[i].as_str());
        i += 1;
        proof {
            assert(all.take(i as int).drop_last() =~= all.take(i - 1));
            assert(all.take(i as int).last() == items@[i - 1]@);
            assert(out@ =~= listed(all.take(i as int)));
        }
    }
    assert(all.take(i as int) =~= all);
    out
}

fn push_field(fields: &mut Vec<String>, name: &str, value: String)
    ensures
        text::texts(final(fields)@) == text::texts(old(fields)@).push(field(name@, value@)),
{
    broadcast use text::texts_push;

    fields.push(text::concat3(name, ": ", value.as_str()));
}

fn record_string(name: &str, fields: &Vec<String>) -> (r: String)
    ensures
        r@ == record(name@, text::texts(fields@)),
{
    let inner = list_string(fields);
    let tail = text::concat(inner.as_str(), " }");
    text::concat3(name, " { ", tail.as_str())
}

fn server_string(server: &ServerInfo) -> (r: String)
    ensures
        r@ == server_text(*server),
{
    let mut fields: Vec<String> = Vec::new();
    push_field(&mut fields, "name", quote(server.name.as_str()));
    push_field(&mut fields, "version", quote(server.version.as_str()));
    assert(text::texts(fields@) =~= seq![
        field("name"@, quoted(server.name@)),
        field("version"@, quoted(server.version@)),
    ]);
    record_string("ServerInfo", &fields)
}

fn capabilities_string(c: &Capabilities) -> (r: String)
    ensures
        r@ == capabilities_text(*c),
{
    let ghost goal = Seq::new(c.commands@.len(), |i: int| quoted(c.commands@[i]@));
    let mut commands: Vec<String> = Vec::new();
    let mut i: usize = 0;
    assert(text::texts(commands@) =~= goal.take(0));
    while i < c.commands.len()
        invariant
            i <= c.commands@.len(),
            goal == Seq::new(c.commands@.len(), |i: int| quoted(c.commands@[i]@)),
            text::texts(commands@) == goal.take(i as int),
        decreases c.commands@.len() - i,
    {
        broadcast use text::texts_push;

        commands.push(quote(c.commands[i].as_str()));
        i += 1;
        assert(goal.take(i as int) =~= goal.take(i - 1).push(goal[i - 1]));
    }
    assert(goal.take(i as int) =~= goal);
    let inner = list_string(&commands);
    let mut fields: Vec<String> = Vec::new();
    push_field(&mut fields, "commands", text::concat3("[", inner.as_str(), "]"));
    assert(text::texts(fields@) =~= seq![field("commands"@, "["@ + listed(goal) + "]"@)]);
    record_string("Capabilities", &fields)
}

fn usage_string(usage: &Usage) -> (r: String)
    ensures
        r@ == usage_text(*usage),
{
    let mut fields: Vec<String> = Vec::new();
    push_field(&mut fields, "input_tokens", text::decimal_string(usage.input_tokens));
    push_field(&mut fields, "output_tokens", text::decimal_string(usage.output_tokens));
    push_field(&mut fields, "context_window", optional_decimal(usage.context_window));
    assert(text::texts(fields@) =~= seq![
        field("input_tokens"@, text::decimal(usage.input_tokens as nat)),
        field("output_tokens"@, text::decimal(usage.output_tokens as nat)),
        field("context_window"@, optional_number(usage.context_window)),
    ]);
    record_string("Usage", &fields)
}

/// Writes out a frame.
pub fn frame_string(frame: &ServerMessage) -> (r: String)
    ensures
        r@ == frame_text(*frame),
{
    let mut fields: Vec<String> = Vec::new();
    assert(text::texts(fields@) =~= Seq::empty());
    let name = match frame {
        ServerMessage::Ready { server, capabilities, .. } => {
            push_field(&mut fields, "protocol_version", text::owned("ProtocolVersion"));
            let server_part = match server {
                Some(s) => optional_string(Some(server_string(s))),
                None => optional_string(None),
            };
            push_field(&mut fields, "server", server_part);
            let commands_part = match capabilities {
                Some(c) => optional_string(Some(capabilities_string(c))),
                None => optional_string(None),
            };
            push_field(&mut fields, "capabilities", commands_part);
            assert(text::texts(fields@) =~= frame_fields(*frame));
            "Ready"
        },
        ServerMessage::Status { request_id, state } => {
            push_field(&mut fields, "request_id", quote(request_id.as_str()));
            let state_part = match state {
                StatusState::Queued => "Queued",
                StatusState::Running => "Running",
            };
            push_field(&mut fields, "state", text::owned(state_part));
            assert(text::texts(fields@) =~= frame_fields(*frame));
            "Status"
        },
        ServerMessage::AgentEvent { request_id, event, active, total, name } => {
            push_field(&mut fields, "request_id", quote(request_id.as_str()));
            let event_part = match event {
                AgentEventKind::Started => "Started",
                AgentEventKind::Finished => "Finished",
            };
            push_field(&mut fields, "event", text::owned(event_part));
            push_field(&mut fields, "active", text::decimal_string(*active));
            push_field(&mut fields, "total", text::decimal_string(*total));
            push_field(&mut fields, "name", optional_quote(name));
            assert(text::texts(fields@) =~= frame_fields(*frame));
            "AgentEvent"
        },
        ServerMessage::Result { request_id, content, model, provider, usage, thoughts } => {
            push_field(&mut fields, "request_id", quote(request_id.as_str()));
            push_field(&mut fields, "content", quote(content.as_str()));
            push_field(&mut fields, "model", optional_quote(model));
            push_field(&mut fields, "provider", optional_quote(provider));
            let usage_part = match usage {
                Some(u) => optional_string(Some(usage_string(u))),
                None => optional_string(None),
            };
            push_field(&mut fields, "usage", usage_part);
            push_field(&mut fields, "thoughts", optional_quote(thoughts));
            assert(text::texts(fields@) =~= frame_fields(*frame));
            "Result"
        },
        ServerMessage::Message { thread_id, content, model, provider, thoughts } => {
            push_field(&mut fields, "thread_id", signed_string(*thread_id));
            push_field(&mut fields, "content", quote(content.as_str()));
            push_field(&mut fields, "model", optional_quote(model));
            push_field(&mut fields, "provider", optional_quote(provider));
            push_field(&mut fields, "thoughts", optional_quote(thoughts));
            assert(text::texts(fields@) =~= frame_fields(*frame));
            "Message"
        },
        ServerMessage::CwdUpdate { thread_id, cwd } => {
            push_field(&mut fields, "thread_id", signed_string(*thread_id));
            push_field(&mut fields, "cwd", quote(cwd.as_str()));
            assert(text::texts(fields@) =~= frame_fields(*frame));
            "CwdUpdate"
        },
        ServerMessage::Error { request_id, code, server_protocol_version, message } => {
            push_field(&mut fields, "request_id", optional_quote(request_id));
            push_field(&mut fields, "code", text::owned(code.as_label()));
            push_field(
                &mut fields,
                "server_protocol_version",
                optional_decimal(*server_protocol_version),
            );
            push_field(&mut fields, "message", quote(message.as_str()));
            assert(text::texts(fields@) =~= frame_fields(*frame));
            "Error"
        },
    };
    record_string(name, &fields)
}

/// A frame is quoted as its name and, in braces, each of its fields with its
/// value, in order and with commas between them.
pub proof fn law_records_read(name: Seq<char>, fields: Seq<Seq<char>>, last: Seq<char>)
    ensures
        record(name, seq![last]) == name + " { "@ + (last + " }"@),
        fields.len() > 0 ==> record(name, fields.push(last)) == name + " { "@ + (listed(fields)
            + ", "@ + last + " }"@),
        field(name, last) == name + ": "@ + last,
        optional(Some(last)) == "Some("@ + last + ")"@,
        optional(None) == "None"@,
{
    assert(fields.push(last).drop_last() =~= fields);
}

/// An answer that comes where none is due is quoted with every field.
pub proof fn law_result_is_quoted_whole(frame: ServerMessage)
    requires
        frame is Result,
    ensures
        frame_fields(frame).len() == 6,
        frame_fields(frame)[0] == "request_id"@ + ": "@ + quoted(frame->Result_request_id@),
        frame_fields(frame)[1] == "content"@ + ": "@ + quoted(frame->Result_content@),
        frame_fields(frame)[2] == "model"@ + ": "@ + optional_quoted(frame->Result_model),
        frame_fields(frame)[3] == "provider"@ + ": "@ + optional_quoted(frame->Result_provider),
        frame_fields(frame)[5] == "thoughts"@ + ": "@ + optional_quoted(frame->Result_thoughts),
        frame_name(frame) == "Result"@,
        frame_text(frame) == record(frame_name(frame), frame_fields(frame)),
{
}

/// So is a frame of any other kind: its name, and its fields in order.
pub proof fn law_frames_are_quoted_whole(frame: ServerMessage)
    ensures
        frame matches ServerMessage::Status { request_id, state } ==> frame_name(frame)
            == "Status"@ && frame_fields(frame) == seq![
            "request_id"@ + ": "@ + quoted(request_id@),
            "state"@ + ": "@ + (if state == StatusState::Queued {
                "Queued"@
            } else {
                "Running"@
            }),
        ],
        frame matches ServerMessage::CwdUpdate { thread_id, cwd } ==> frame_name(frame)
            == "CwdUpdate"@ && frame_fields(frame) == seq![
            "thread_id"@ + ": "@ + signed(thread_id as int),
            "cwd"@ + ": "@ + quoted(cwd@),
        ],
        frame matches ServerMessage::Error { request_id, code, server_protocol_version, message }
            ==> frame_name(frame) == "Error"@ && frame_fields(frame) == seq![
            "request_id"@ + ": "@ + optional_quoted(request_id),
            "code"@ + ": "@ + code.label(),
            "server_protocol_version"@ + ": "@ + optional_number(server_protocol_version),
            "message"@ + ": "@ + quoted(message@),
        ],
        frame matches ServerMessage::Message { thread_id, content, model, provider, thoughts }
            ==> frame_name(frame) == "Message"@ && frame_fields(frame) == seq![
            "thread_id"@ + ": "@ + signed(thread_id as int),
            "content"@ + ": "@ + quoted(content@),
            "model"@ + ": "@ + optional_quoted(model),
            "provider"@ + ": "@ + optional_quoted(provider),
            "thoughts"@ + ": "@ + optional_quoted(thoughts),
        ],
        frame is Ready ==> frame_name(frame) == "Ready"@ && frame_fields(frame).len() == 3,
        frame is AgentEvent ==> frame_name(frame) == "AgentEvent"@ && frame_fields(frame).len()
            == 5,
{
}

/// A negative number has a minus before its digits.
pub proof fn law_signed_numbers(n: int)
    ensures
        n >= 0 ==> signed(n) == text::decimal(n as nat),
        n < 0 ==> signed(n) == seq!['-'] + text::decimal((-n) as nat),
{
    reveal_strlit("-");
    assert("-"@ =~= seq!['-']);
}

} // verus!
