//! Demo conversations: no I/O, no network.

use std::collections::VecDeque;
use vstd::prelude::*;
use crate::app::{Chat, Submitted};
use crate::model::{ChatLifecycle, Message};
use crate::{model, splash, text};

verus! {

/// What the demo backend answers, in turn.
pub open spec fn reply_texts() -> Seq<Seq<char>> {
    seq![
        "## Quick answer\n\nHere is the short version:\n\n- `chibi ide --stdio` speaks **JSONL v1**\n- every line is one JSON object\n- handshake comes first: `initialize` → `ready`\n\n```rust\nlet msg: Message = serde_json::from_str(&line)?;\n```\n\nWant me to go deeper on cancel semantics?"@,
        "### Plan\n\n1. Extract the transport layer (`mpsc` based)\n2. Keep the UI as a pure renderer\n3. Swap mocks for the real JSONL client later\n\n> The protocol only exposes coarse `status` events, so the spinner is driven by `queued`/`running`.\n\n```python\ndef parse(line: str) -> dict:\n    return json.loads(line)\n```\n\nThat keeps the swap-in painless."@,
        "Found it — the issue was a **missing handshake**. Until `initialize` completes with `ready`, every request fails with `not_initialized`.\n\n- Fix: await `ready` before sending anything\n- Also correlate replies by `request_id`\n\n```rust\nmatch event {\n    Event::Status(s) => ui.set_status(s),\n    Event::Result(r) => ui.push_answer(r),\n    _ => {}\n}\n```\n\nShould be stable now."@,
        "## Notes on threading\n\nTokio tasks are cheap, but the render loop should stay on the main task:\n\n- `tokio::select!` between key events and backend messages\n- render **on change**, not on a fixed tick\n- keep `crossterm` polling non-blocking via `event::poll`\n\n```python\nimport asyncio\n\nasync def main():\n    await tui.run()\n```\n\nHappy to sketch the full select loop if useful."@,
    ]
}

/// What the demo backend answers, in turn.
pub fn mock_replies() -> (r: Vec<&'static str>)
    ensures
        splash::literal_views(r@) == reply_texts(),
{
    let mut replies: Vec<&'static str> = Vec::new();
    replies.push("## Quick answer\n\nHere is the short version:\n\n- `chibi ide --stdio` speaks **JSONL v1**\n- every line is one JSON object\n- handshake comes first: `initialize` → `ready`\n\n```rust\nlet msg: Message = serde_json::from_str(&line)?;\n```\n\nWant me to go deeper on cancel semantics?");
    replies.push("### Plan\n\n1. Extract the transport layer (`mpsc` based)\n2. Keep the UI as a pure renderer\n3. Swap mocks for the real JSONL client later\n\n> The protocol only exposes coarse `status` events, so the spinner is driven by `queued`/`running`.\n\n```python\ndef parse(line: str) -> dict:\n    return json.loads(line)\n```\n\nThat keeps the swap-in painless.");
    replies.push("Found it — the issue was a **missing handshake**. Until `initialize` completes with `ready`, every request fails with `not_initialized`.\n\n- Fix: await `ready` before sending anything\n- Also correlate replies by `request_id`\n\n```rust\nmatch event {\n    Event::Status(s) => ui.set_status(s),\n    Event::Result(r) => ui.push_answer(r),\n    _ => {}\n}\n```\n\nShould be stable now.");
    replies.push("## Notes on threading\n\nTokio tasks are cheap, but the render loop should stay on the main task:\n\n- `tokio::select!` between key events and backend messages\n- render **on change**, not on a fixed tick\n- keep `crossterm` polling non-blocking via `event::poll`\n\n```python\nimport asyncio\n\nasync def main():\n    await tui.run()\n```\n\nHappy to sketch the full select loop if useful.");
    assert(splash::literal_views(replies@) =~= reply_texts());
    replies
}

/// What a [`Chat`] holds.
#[verifier::ext_equal]
pub struct ChatView {
    pub name: Seq<char>,
    pub id: Seq<char>,
    pub messages: Seq<model::MessageView>,
    pub lifecycle: ChatLifecycle,
    pub queue: Seq<Submitted>,
    pub unread: bool,
    pub last_thoughts: Option<Seq<char>>,
}

impl View for Chat {
    type V = ChatView;

    open spec fn view(&self) -> ChatView {
        ChatView {
            name: self.name@,
            id: self.id@,
            messages: model::message_views(self.messages@),
            lifecycle: self.lifecycle,
            queue: self.queue@,
            unread: self.unread,
            last_thoughts: text::optional(self.last_thoughts),
        }
    }
}

/// A chat at rest: nothing in flight, nothing queued, nothing unseen.
pub open spec fn resting(name: Seq<char>, id: Seq<char>, messages: Seq<model::MessageView>) -> ChatView {
    ChatView {
        name,
        id,
        messages,
        lifecycle: ChatLifecycle::Idle,
        queue: Seq::empty(),
        unread: false,
        last_thoughts: None,
    }
}

/// A chat at rest, with these messages.
pub fn chat(name: &str, id: &str, messages: Vec<Message>) -> (r: Chat)
    ensures
        r@ == resting(name@, id@, model::message_views(messages@)),
{
    Chat {
        name: text::owned(name),
        id: text::owned(id),
        messages,
        lifecycle: ChatLifecycle::Idle,
        queue: VecDeque::new(),
        unread: false,
        last_thoughts: None,
    }
}

/// The messages of the chat `JSONL protocol`.
pub open spec fn protocol_talk() -> Seq<model::MessageView> {
    seq![
        model::user_message("How does the IDE integration actually talk to Chibi?"@),
        model::assistant_message("The editor spawns Chibi as a **child process** and speaks newline-delimited JSON over stdio.\n\n## Handshake\n\n1. client sends `initialize` with `protocol_version: 1`\n2. backend answers `ready`\n3. normal traffic starts\n\nUntil `ready` arrives every request is rejected with `not_initialized`.\n\n| Message | Direction | Meaning |\n|---|---|---|\n| `initialize` | client → chibi | protocol handshake |\n| `ready` | chibi → client | session accepted |\n| `request` | client → chibi | one prompt |\n| `result` | chibi → client | final markdown answer |"@),
        model::user_message("And what does a request look like?"@),
        model::assistant_message("Every request carries correlation metadata:\n\n- `request_id` — unique per request, used for cancel\n- `thread_id` — stable per chat\n- `prompt` — the actual user text\n- `workspace_root` — absolute path, required\n\nOptional fields like `active_file` stay `null` in the TUI. On the wire it is a frozen dataclass:\n\n```python\n@dataclass(frozen=True)\nclass Request:\n    request_id: str\n    thread_id: str\n    prompt: str\n    workspace_root: str\n    active_file: str | None = None\n\n    def to_jsonl(self) -> str:\n        payload = asdict(self)\n        return json.dumps(payload, ensure_ascii=False)\n```\n\nReplies arrive either as `result`, `error` or coarse `status` updates (`queued` / `running`)."@),
    ]
}

fn protocol_messages() -> (r: Vec<Message>)
    ensures
        model::message_views(r@) == protocol_talk(),
{
    let mut messages: Vec<Message> = Vec::new();
    messages.push(Message::user("How does the IDE integration actually talk to Chibi?"));
    messages.push(Message::assistant("The editor spawns Chibi as a **child process** and speaks newline-delimited JSON over stdio.\n\n## Handshake\n\n1. client sends `initialize` with `protocol_version: 1`\n2. backend answers `ready`\n3. normal traffic starts\n\nUntil `ready` arrives every request is rejected with `not_initialized`.\n\n| Message | Direction | Meaning |\n|---|---|---|\n| `initialize` | client → chibi | protocol handshake |\n| `ready` | chibi → client | session accepted |\n| `request` | client → chibi | one prompt |\n| `result` | chibi → client | final markdown answer |"));
    messages.push(Message::user("And what does a request look like?"));
    messages.push(Message::assistant("Every request carries correlation metadata:\n\n- `request_id` — unique per request, used for cancel\n- `thread_id` — stable per chat\n- `prompt` — the actual user text\n- `workspace_root` — absolute path, required\n\nOptional fields like `active_file` stay `null` in the TUI. On the wire it is a frozen dataclass:\n\n```python\n@dataclass(frozen=True)\nclass Request:\n    request_id: str\n    thread_id: str\n    prompt: str\n    workspace_root: str\n    active_file: str | None = None\n\n    def to_jsonl(self) -> str:\n        payload = asdict(self)\n        return json.dumps(payload, ensure_ascii=False)\n```\n\nReplies arrive either as `result`, `error` or coarse `status` updates (`queued` / `running`)."));
    assert(model::message_views(messages@) =~= protocol_talk());
    messages
}

/// The messages of the chat `Model choice`.
pub open spec fn model_choice_talk() -> Seq<model::MessageView> {
    seq![
        model::user_message("Which model should I pick for long refactors?"@),
        model::assistant_message("For large mechanical edits prefer models with big context windows:\n\n| Model | Provider | Context |\n|---|---|---:|\n| glm-5.2 | ZhipuAI | 200k |\n| kimi-k2.7 | MoonshotAI | 256k |\n| deepseek-v4 | DeepSeek | 128k |\n| qwen3.5-max | Alibaba | 1M |\n\nFor quick Q&A a fast cheap model is usually enough — latency dominates. The same rule as a function:\n\n```rust\nasync fn pick_model<'a>(\n    models: &'a [ModelInfo],\n    budget: &Budget,\n) -> Result<&'a ModelInfo, PickError> {\n    let fits: Vec<_> = models.iter()\n        .filter(|m| m.context_tokens >= budget.min_context)\n        .collect();\n    match fits.iter().min_by_key(|m| m.cost_per_1k) {\n        Some(best) => Ok(best),\n        None => Err(PickError::NoModelFits),\n    }\n}\n```"@),
    ]
}

fn model_choice_messages() -> (r: Vec<Message>)
    ensures
        model::message_views(r@) == model_choice_talk(),
{
    let mut messages: Vec<Message> = Vec::new();
    messages.push(Message::user("Which model should I pick for long refactors?"));
    messages.push(Message::assistant("For large mechanical edits prefer models with big context windows:\n\n| Model | Provider | Context |\n|---|---|---:|\n| glm-5.2 | ZhipuAI | 200k |\n| kimi-k2.7 | MoonshotAI | 256k |\n| deepseek-v4 | DeepSeek | 128k |\n| qwen3.5-max | Alibaba | 1M |\n\nFor quick Q&A a fast cheap model is usually enough — latency dominates. The same rule as a function:\n\n```rust\nasync fn pick_model<'a>(\n    models: &'a [ModelInfo],\n    budget: &Budget,\n) -> Result<&'a ModelInfo, PickError> {\n    let fits: Vec<_> = models.iter()\n        .filter(|m| m.context_tokens >= budget.min_context)\n        .collect();\n    match fits.iter().min_by_key(|m| m.cost_per_1k) {\n        Some(best) => Ok(best),\n        None => Err(PickError::NoModelFits),\n    }\n}\n```"));
    assert(model::message_views(messages@) =~= model_choice_talk());
    messages
}

/// The messages of the chat `Refactor utils.py`.
pub open spec fn refactor_talk() -> Seq<model::MessageView> {
    seq![
        model::user_message("Refactor utils.py — split it into focused modules."@),
        model::assistant_message("Suggested split:\n\n1. `strings.py` — slugify, truncation\n2. `datetime.py` — parsing helpers\n3. `fs.py` — safe read/write wrappers\n\nKeep `utils.py` as a thin re-export layer so existing imports don't break:\n\n```python\nfrom .strings import slugify\nfrom .datetime import parse_dt  # noqa: F401\n```\n\nI can prepare the diff once you confirm the layout."@),
        model::user_message("Confirmed, go ahead."@),
        model::assistant_message("Done — three new modules plus the re-export shim.\n\n**Verification:**\n\n```bash\npytest tests/utils -q   # 42 passed\nruff check .            # clean\n```\n\nNothing else referenced the moved symbols directly, so no call-site changes were needed."@),
    ]
}

fn refactor_messages() -> (r: Vec<Message>)
    ensures
        model::message_views(r@) == refactor_talk(),
{
    let mut messages: Vec<Message> = Vec::new();
    messages.push(Message::user("Refactor utils.py — split it into focused modules."));
    messages.push(Message::assistant("Suggested split:\n\n1. `strings.py` — slugify, truncation\n2. `datetime.py` — parsing helpers\n3. `fs.py` — safe read/write wrappers\n\nKeep `utils.py` as a thin re-export layer so existing imports don't break:\n\n```python\nfrom .strings import slugify\nfrom .datetime import parse_dt  # noqa: F401\n```\n\nI can prepare the diff once you confirm the layout."));
    messages.push(Message::user("Confirmed, go ahead."));
    messages.push(Message::assistant("Done — three new modules plus the re-export shim.\n\n**Verification:**\n\n```bash\npytest tests/utils -q   # 42 passed\nruff check .            # clean\n```\n\nNothing else referenced the moved symbols directly, so no call-site changes were needed."));
    assert(model::message_views(messages@) =~= refactor_talk());
    messages
}

/// The messages of the chat `Ideas`.
pub open spec fn ideas_talk() -> Seq<model::MessageView> {
    seq![
        model::user_message("Any ideas for the TUI roadmap?"@),
        model::assistant_message("A few candidates, roughly in order of impact:\n\n- **Syntax highlighting** in code blocks (syntect)\n- Streaming tokens — needs protocol v1.1 on the backend side\n- `/model` picker with fuzzy search\n- Local history search (`Ctrl+R` style)\n\nThe streaming one unlocks real typing feel but requires coordinated backend work."@),
    ]
}

fn ideas_messages() -> (r: Vec<Message>)
    ensures
        model::message_views(r@) == ideas_talk(),
{
    let mut messages: Vec<Message> = Vec::new();
    messages.push(Message::user("Any ideas for the TUI roadmap?"));
    messages.push(Message::assistant("A few candidates, roughly in order of impact:\n\n- **Syntax highlighting** in code blocks (syntect)\n- Streaming tokens — needs protocol v1.1 on the backend side\n- `/model` picker with fuzzy search\n- Local history search (`Ctrl+R` style)\n\nThe streaming one unlocks real typing feel but requires coordinated backend work."));
    assert(model::message_views(messages@) =~= ideas_talk());
    messages
}

/// What a list of chats holds.
pub open spec fn chat_views(v: Seq<Chat>) -> Seq<ChatView> {
    Seq::new(v.len(), |i: int| v[i]@)
}

/// The chats that the demo starts with, under the given ids.
pub fn initial_chats(ids: &Vec<String>) -> (r: Vec<Chat>)
    requires
        ids@.len() >= 4,
    ensures
        chat_views(r@) == seq![
            resting("JSONL protocol"@, ids@[0]@, protocol_talk()),
            resting("Model choice"@, ids@[1]@, model_choice_talk()),
            resting("Refactor utils.py"@, ids@[2]@, refactor_talk()),
            resting("Ideas"@, ids@[3]@, ideas_talk()),
        ],
{
    let mut chats: Vec<Chat> = Vec::new();
    chats.push(chat("JSONL protocol", ids[0].as_str(), protocol_messages()));
    chats.push(chat("Model choice", ids[1].as_str(), model_choice_messages()));
    chats.push(chat("Refactor utils.py", ids[2].as_str(), refactor_messages()));
    chats.push(chat("Ideas", ids[3].as_str(), ideas_messages()));
    assert(chat_views(chats@) =~= seq![
        resting("JSONL protocol"@, ids@[0]@, protocol_talk()),
        resting("Model choice"@, ids@[1]@, model_choice_talk()),
        resting("Refactor utils.py"@, ids@[2]@, refactor_talk()),
        resting("Ideas"@, ids@[3]@, ideas_talk()),
    ]);
    chats
}

} // verus!
