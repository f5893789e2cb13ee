//! The life of a prompt in its chat: sent at once or queued, then answered.

use vstd::prelude::*;
use crate::app::{Chat, Submitted};
use crate::mock::ChatView;
use crate::model::{ChatLifecycle, Message};
use crate::{model, text};

verus! {

/// The placeholder of an answer that is awaited.
pub open spec fn awaited() -> model::MessageView {
    model::MessageView { role: model::Role::Assistant, markdown: Seq::empty(), pending: true }
}

/// The placeholder of an answer whose prompt waits at `position` in the queue.
pub open spec fn waiting(position: nat) -> model::MessageView {
    model::MessageView {
        role: model::Role::Assistant,
        markdown: "\u{23f3} queued (#"@ + text::decimal(position) + ")"@,
        pending: true,
    }
}

/// Whether `s` is the prompt `prompt` of the chat `chat`, under `request_id`.
pub open spec fn is_submission(
    s: Submitted,
    chat: ChatView,
    request_id: Seq<char>,
    prompt: Seq<char>,
) -> bool {
    s.request_id@ == request_id && s.thread_id@ == chat.id && s.prompt@ == prompt
}

/// Takes a prompt into a chat: a free chat hands it out to be sent, a busy one
/// puts it behind its queue. Blank text is refused.
pub fn accept_prompt(chat: &mut Chat, request_id: &str, prompt: &str) -> (r: Option<Submitted>)
    requires
        old(chat)@.queue.len() < usize::MAX,
    ensures
        text::trim(prompt@).len() == 0 ==> r is None && final(chat)@ == old(chat)@,
        text::trim(prompt@).len() > 0 && old(chat)@.lifecycle.in_flight() is None ==> {
            &&& r matches Some(s) && is_submission(s, old(chat)@, request_id@, prompt@)
            &&& final(chat)@ == (ChatView {
                messages: old(chat)@.messages.push(model::user_message(prompt@)).push(awaited()),
                ..old(chat)@
            })
        },
        text::trim(prompt@).len() > 0 && old(chat)@.lifecycle.in_flight() is Some ==> {
            &&& r is None
            &&& final(chat)@.queue.len() == old(chat)@.queue.len() + 1
            &&& is_submission(final(chat)@.queue.last(), old(chat)@, request_id@, prompt@)
            &&& final(chat)@ == (ChatView {
                messages: old(chat)@.messages.push(model::user_message(prompt@)).push(
                    waiting(old(chat)@.queue.len() + 1),
                ),
                queue: old(chat)@.queue.push(final(chat)@.queue.last()),
                ..old(chat)@
            })
        },
{
    let trimmed = text::trimmed(prompt);
    if trimmed.as_str().is_empty() {
        return None;
    }
    let submitted = Submitted {
        request_id: text::owned(request_id),
        thread_id: chat.id.clone(),
        prompt: text::owned(prompt),
    };
    let ghost before = chat@;
    chat.messages.push(Message::user(prompt));
    assert(chat@.messages =~= before.messages.push(model::user_message(prompt@)));
    let ghost asked = chat@;
    if chat.lifecycle.is_busy() {
        let place: usize = chat.queue.len() + 1;
        chat.messages.push(Message::assistant_queued(place));
        assert(chat@.messages =~= asked.messages.push(waiting(place as nat)));
        chat.queue.push_back(submitted);
        None
    } else {
        chat.messages.push(Message::assistant_pending());
        assert(chat@.messages =~= asked.messages.push(awaited()));
        Some(submitted)
    }
}

/// Marks a chat busy with a request that was handed to the backend.
pub fn begin_request(chat: &mut Chat, request_id: &str)
    ensures
        final(chat)@.lifecycle matches ChatLifecycle::Awaiting { request_id: id } && id@
            == request_id@,
        final(chat)@ == (ChatView { lifecycle: final(chat)@.lifecycle, ..old(chat)@ }),
{
    chat.lifecycle = ChatLifecycle::Awaiting { request_id: text::owned(request_id) };
}

/// The backend works on the chat's request; a chat at rest stays at rest.
pub fn mark_running(chat: &mut Chat)
    ensures
        old(chat)@.lifecycle.in_flight() is None ==> final(chat)@ == old(chat)@,
        old(chat)@.lifecycle.in_flight() matches Some(id) ==> {
            final(chat)@.lifecycle matches ChatLifecycle::Running { request_id } && request_id@
                == id
        },
        final(chat)@ == (ChatView { lifecycle: final(chat)@.lifecycle, ..old(chat)@ }),
{
    let id = match chat.lifecycle.request_id() {
        Some(id) => text::owned(id),
        None => {
            return ;
        },
    };
    chat.lifecycle = ChatLifecycle::Running { request_id: id };
}

/// Takes the next queued prompt out of a chat, which is busy with it from now on.
pub fn dequeue(chat: &mut Chat) -> (r: Option<Submitted>)
    ensures
        r is Some <==> old(chat)@.queue.len() > 0,
        r is None ==> final(chat)@ == old(chat)@,
        r matches Some(s) ==> {
            &&& s == old(chat)@.queue[0]
            &&& final(chat)@.lifecycle.in_flight() == Some(s.request_id@)
            &&& final(chat)@.lifecycle is Awaiting
            &&& final(chat)@ == (ChatView {
                queue: old(chat)@.queue.skip(1),
                lifecycle: final(chat)@.lifecycle,
                ..old(chat)@
            })
        },
{
    match chat.queue.pop_front() {
        Some(next) => {
            assert(chat@.queue =~= old(chat)@.queue.skip(1));
            begin_request(chat, next.request_id.as_str());
            Some(next)
        },
        None => None,
    }
}

/// The first placeholder among `messages`, if there is one.
pub open spec fn first_pending(messages: Seq<model::MessageView>) -> Option<int>
    decreases messages.len(),
{
    if messages.len() == 0 {
        None
    } else {
        match first_pending(messages.drop_last()) {
            Some(i) => Some(i),
            None => if messages.last().pending {
                Some(messages.len() - 1)
            } else {
                None
            },
        }
    }
}

proof fn lemma_first_pending(messages: Seq<model::MessageView>)
    ensures
        match first_pending(messages) {
            Some(i) => 0 <= i < messages.len() && messages[i].pending && forall|k: int|
                0 <= k < i ==> !(#[trigger] messages[k]).pending,
            None => forall|k: int| 0 <= k < messages.len() ==> !(#[trigger] messages[k]).pending,
        },
    decreases messages.len(),
{
    if messages.len() > 0 {
        lemma_first_pending(messages.drop_last());
        assert forall|k: int| 0 <= k < messages.len() - 1 implies messages[k]
            == messages.drop_last()[k] by {}
    }
}

/// The messages once an answer is in: it takes the place of the oldest
/// placeholder, or the end where there is none.
pub open spec fn answered(
    messages: Seq<model::MessageView>,
    answer: model::MessageView,
) -> Seq<model::MessageView> {
    match first_pending(messages) {
        Some(i) => messages.update(i, answer),
        None => messages.push(answer),
    }
}

/// Ends the chat's request with `answer`. An answer that is not seen at once
/// leaves the chat marked. Returns the answer's place.
pub fn settle(chat: &mut Chat, answer: Message, seen: bool) -> (r: usize)
    ensures
        final(chat)@ == (ChatView {
            messages: answered(old(chat)@.messages, answer@),
            lifecycle: ChatLifecycle::Idle,
            unread: !seen,
            ..old(chat)@
        }),
        r as int == match first_pending(old(chat)@.messages) {
            Some(i) => i,
            None => old(chat)@.messages.len() as int,
        },
{
    let ghost views = chat@.messages;
    proof {
        lemma_first_pending(views);
    }
    let mut i: usize = 0;
    while i < chat.messages.len() && !chat.messages[i].pending
        invariant
            i <= chat.messages@.len(),
            chat@ == old(chat)@,
            views == old(chat)@.messages,
            views.len() == chat.messages@.len(),
            forall|k: int| 0 <= k < i ==> !(#[trigger] views[k]).pending,
        decreases chat.messages@.len() - i,
    {
        assert(views[i as int] == chat.messages@[i as int]@);
        i += 1;
    }
    if i < chat.messages.len() {
        assert(views[i as int] == chat.messages@[i as int]@);
        chat.messages[i] = answer;
        assert(chat@.messages =~= views.update(i as int, answer@));
    } else {
        chat.messages.push(answer);
        assert(chat@.messages =~= views.push(answer@));
    }
    chat.lifecycle = ChatLifecycle::Idle;
    chat.unread = !seen;
    i
}

/// Prompts leave the queue in the order in which they came: a new one changes
/// neither which prompt is next nor the order of the rest.
pub proof fn law_queue_is_fifo(queue: Seq<Submitted>, later: Submitted)
    requires
        queue.len() > 0,
    ensures
        queue.push(later)[0] == queue[0],
        queue.push(later).skip(1) == queue.skip(1).push(later),
{
    assert(queue.push(later).skip(1) =~= queue.skip(1).push(later));
}

/// An answer fills one placeholder and leaves every other message as it was.
pub proof fn law_answer_fills_one(
    messages: Seq<model::MessageView>,
    answer: model::MessageView,
    k: int,
)
    requires
        0 <= k < messages.len(),
    ensures
        answered(messages, answer)[k] == messages[k] || (messages[k].pending && answered(
            messages,
            answer,
        )[k] == answer),
        !messages[k].pending ==> answered(messages, answer)[k] == messages[k],
{
    lemma_first_pending(messages);
}

/// The oldest placeholder gets the answer; where no message waits, the answer is
/// a message more. Nothing else is added or lost.
pub proof fn law_oldest_placeholder_is_answered(
    messages: Seq<model::MessageView>,
    answer: model::MessageView,
    k: int,
)
    ensures
        0 <= k < messages.len() && messages[k].pending && (forall|j: int|
            0 <= j < k ==> !(#[trigger] messages[j]).pending) ==> answered(messages, answer)
            == messages.update(k, answer),
        (forall|j: int| 0 <= j < messages.len() ==> !(#[trigger] messages[j]).pending)
            ==> answered(messages, answer) == messages.push(answer),
{
    lemma_first_pending(messages);
}

/// Two prompts of a chat are answered in the order in which they were asked: the
/// first answer goes to the first placeholder, the second to the second.
pub proof fn law_answers_come_in_order(
    messages: Seq<model::MessageView>,
    first: model::MessageView,
    second: model::MessageView,
    a: int,
    b: int,
)
    requires
        0 <= a < b < messages.len(),
        messages[a].pending,
        messages[b].pending,
        forall|j: int| 0 <= j < b && j != a ==> !(#[trigger] messages[j]).pending,
        !first.pending,
    ensures
        answered(answered(messages, first), second) == messages.update(a, first).update(b, second),
{
    law_oldest_placeholder_is_answered(messages, first, a);
    law_oldest_placeholder_is_answered(messages.update(a, first), second, b);
}

/// A placeholder is an empty or numbered answer that waits; it is never taken for
/// a real one.
pub proof fn law_placeholders_wait(position: nat)
    ensures
        awaited().pending && awaited().role is Assistant && awaited().markdown.len() == 0,
        waiting(position).pending && waiting(position).role is Assistant,
        waiting(position).markdown == "\u{23f3} queued (#"@ + text::decimal(position) + ")"@,
{
}

/// A prompt that is taken is the last question of its chat, as it was typed, with
/// a placeholder behind it, and every message before it stays. A chat at rest
/// hands it out to be sent; a busy one keeps it as the last of its queue.
pub proof fn law_prompt_joins_the_chat(
    chat: &mut Chat,
    request_id: &str,
    prompt: &str,
    r: Option<Submitted>,
)
    requires
        call_ensures(accept_prompt, (chat, request_id, prompt), r),
        text::trim(prompt@).len() > 0,
    ensures
        ({
            let n = old(chat)@.messages.len() as int;
            let now = final(chat)@.messages;
            let busy = old(chat)@.lifecycle.in_flight() is Some;
            &&& now.len() == n + 2
            &&& now.take(n) == old(chat)@.messages
            &&& now[n].role is User && now[n].markdown == prompt@ && !now[n].pending
            &&& now[n + 1].role is Assistant && now[n + 1].pending
            &&& r is Some <==> !busy
            &&& r matches Some(s) ==> s.prompt@ == prompt@ && s.request_id@ == request_id@
                && s.thread_id@ == old(chat)@.id && final(chat)@.queue == old(chat)@.queue
            &&& busy ==> final(chat)@.queue.len() == old(chat)@.queue.len() + 1
                && final(chat)@.queue.take(old(chat)@.queue.len() as int) == old(chat)@.queue
                && final(chat)@.queue.last().prompt@ == prompt@
                && final(chat)@.queue.last().request_id@ == request_id@
                && final(chat)@.queue.last().thread_id@ == old(chat)@.id
            &&& final(chat)@.id == old(chat)@.id && final(chat)@.name == old(chat)@.name
            &&& final(chat)@.lifecycle == old(chat)@.lifecycle
        }),
{
    let n = old(chat)@.messages.len() as int;
    assert(final(chat)@.messages.take(n) =~= old(chat)@.messages);
    assert(final(chat)@.queue.take(old(chat)@.queue.len() as int) =~= old(chat)@.queue);
}

/// White space alone is no prompt: it changes nothing and is not sent.
pub proof fn law_blank_prompt_is_refused(
    chat: &mut Chat,
    request_id: &str,
    prompt: &str,
    r: Option<Submitted>,
)
    requires
        call_ensures(accept_prompt, (chat, request_id, prompt), r),
        text::trim(prompt@).len() == 0,
    ensures
        r is None,
        final(chat)@ == old(chat)@,
{
}

/// A queue hands out its oldest prompt, keeps the others in order, and the chat is
/// busy with the one handed out.
pub proof fn law_oldest_prompt_goes_next(chat: &mut Chat, r: Option<Submitted>)
    requires
        call_ensures(dequeue, (chat,), r),
    ensures
        old(chat)@.queue.len() == 0 ==> r is None && final(chat)@ == old(chat)@,
        old(chat)@.queue.len() > 0 ==> {
            &&& r == Some(old(chat)@.queue[0])
            &&& final(chat)@.queue == old(chat)@.queue.drop_first()
            &&& final(chat)@.lifecycle.in_flight() == Some(old(chat)@.queue[0].request_id@)
            &&& final(chat)@.messages == old(chat)@.messages
        },
{
    if old(chat)@.queue.len() > 0 {
        assert(old(chat)@.queue.skip(1) =~= old(chat)@.queue.drop_first());
    }
}

/// An answer ends the request: the chat is at rest, the oldest placeholder holds
/// the answer, the queue is as it was, and the chat is marked unread if and only
/// if nobody saw it.
pub proof fn law_answer_settles_the_chat(chat: &mut Chat, answer: Message, seen: bool, r: usize)
    requires
        call_ensures(settle, (chat, answer, seen), r),
    ensures
        final(chat)@.lifecycle is Idle,
        final(chat)@.unread == !seen,
        final(chat)@.queue == old(chat)@.queue,
        r < final(chat)@.messages.len(),
        final(chat)@.messages[r as int] == answer@,
        r < old(chat)@.messages.len() ==> old(chat)@.messages[r as int].pending
            && final(chat)@.messages.len() == old(chat)@.messages.len(),
        r == old(chat)@.messages.len() ==> final(chat)@.messages.len() == r + 1,
        forall|k: int| 0 <= k < r ==> !(#[trigger] old(chat)@.messages[k]).pending,
        forall|k: int|
            0 <= k < old(chat)@.messages.len() && k != r ==> final(chat)@.messages[k]
                == #[trigger] old(chat)@.messages[k],
{
    lemma_first_pending(old(chat)@.messages);
}

/// A request that was sent makes its chat wait for it, and news of it make the
/// chat work on that very request.
pub proof fn law_request_is_followed(chat: &mut Chat, other: &mut Chat, request_id: &str)
    requires
        call_ensures(begin_request, (chat, request_id), ()),
        call_ensures(mark_running, (other,), ()),
    ensures
        final(chat)@.lifecycle is Awaiting,
        final(chat)@.lifecycle.in_flight() == Some(request_id@),
        final(chat)@.messages == old(chat)@.messages && final(chat)@.queue == old(chat)@.queue,
        old(other)@.lifecycle.in_flight() is None ==> final(other)@ == old(other)@,
        old(other)@.lifecycle.in_flight() is Some ==> final(other)@.lifecycle is Running
            && final(other)@.lifecycle.in_flight() == old(other)@.lifecycle.in_flight(),
        final(other)@.messages == old(other)@.messages,
{
}

} // verus!
