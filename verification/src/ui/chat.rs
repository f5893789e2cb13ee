//! The chat view: its title row, the transcript and the scrolled window.

use vstd::prelude::*;
use crate::app::{ChatRowMeta, ChatSelection};
use crate::markdown;
use crate::model::{Message, Role};
use crate::protocol::Usage;
use crate::style::{Color, Line, Modifier, Rect, Style};
use crate::theme::{Highlighter, Theme};
use crate::transcript::{
    apply_selection_highlight, scroll_for_search_jump, scroll_skip, search_jump_wrapped_row,
    wrap_message_rows_full,
};
use crate::ui::layout::block_inner;
use crate::ui::lines::{assistant_header_line, render_scroll_hint, thoughts_block_lines};
use crate::ui::strip::status_strip_title;
use crate::ui::{layout, lines, strip};
use crate::{app, live, model, style, text, transcript, width, wrap};

verus! {

/// The left title: the chat's place among the chats, and its name in one line.
pub open spec fn title_text(active: usize, count: usize, title: Seq<char>) -> Seq<char> {
    " #"@ + text::decimal((active + 1) as nat) + ("/"@ + text::decimal(count as nat) + (
    " \u{00b7} "@ + text::replaced(title, '\n', ' ') + " "@))
}

/// Builds the left title of the chat view.
pub fn chat_view_title(active: usize, count: usize, title: &str) -> (r: String)
    requires
        active < usize::MAX,
    ensures
        r@ == title_text(active, count, title@),
{
    let name = text::replace_char(title, '\n', ' ');
    let tail = text::concat3(" \u{00b7} ", name.as_str(), " ");
    let total = text::decimal_usize(count);
    let middle = text::concat3("/", total.as_str(), tail.as_str());
    let place = text::decimal_usize(active + 1);
    text::concat3(" #", place.as_str(), middle.as_str())
}

/// The header of a message.
pub open spec fn header(role: Role, label: Option<Seq<char>>, theme: Theme) -> style::LineView {
    match role {
        Role::User => style::line_of(
            "\u{25cf} You"@,
            style::fg(theme.orange).plus(Modifier::Bold),
        ),
        Role::Assistant => lines::answer_header(label, theme),
    }
}

/// The body of a message: a pending one has an empty line.
pub open spec fn body(m: model::MessageView, theme: Theme, hl: Highlighter) -> Seq<style::LineView> {
    if m.pending {
        seq![style::line_of(""@, style::plain())]
    } else {
        markdown::rendered(markdown::events::markdown_events(m.markdown), theme, hl)
    }
}

/// The reasoning block, if there is reasoning to show.
pub open spec fn reasoning(thoughts: Option<Seq<char>>, theme: Theme) -> Seq<style::LineView> {
    match thoughts {
        Some(t) => lines::thoughts_block(t, theme),
        None => Seq::empty(),
    }
}

/// The lines of one message: the reasoning block where it belongs there, the
/// header, the body and a blank line.
pub open spec fn message_lines(
    m: model::MessageView,
    label: Option<Seq<char>>,
    thoughts: Option<Seq<char>>,
    theme: Theme,
    hl: Highlighter,
) -> Seq<style::LineView> {
    reasoning(thoughts, theme).push(header(m.role, label, theme)) + body(m, theme, hl).push(
        style::blank(),
    )
}

/// The last answer among `messages`, if there is one.
pub open spec fn last_answer(messages: Seq<model::MessageView>) -> Option<int>
    decreases messages.len(),
{
    if messages.len() == 0 {
        None
    } else if messages.last().role == Role::Assistant {
        Some(messages.len() - 1)
    } else {
        last_answer(messages.drop_last())
    }
}

/// The label of the message at `i`, where the list of labels reaches so far.
pub open spec fn label_at(labels: Seq<Option<String>>, i: int) -> Option<Seq<char>> {
    if i < labels.len() {
        text::optional(labels[i])
    } else {
        None
    }
}

/// The reasoning shown above the message at `i`: above the last answer alone.
pub open spec fn thoughts_at(
    messages: Seq<model::MessageView>,
    thoughts: Option<Seq<char>>,
    i: int,
) -> Option<Seq<char>> {
    if last_answer(messages) == Some(i) {
        thoughts
    } else {
        None
    }
}

/// The lines of the first `n` messages.
pub open spec fn transcript_of(
    messages: Seq<model::MessageView>,
    labels: Seq<Option<String>>,
    thoughts: Option<Seq<char>>,
    theme: Theme,
    hl: Highlighter,
    n: int,
) -> Seq<style::LineView>
    decreases n,
{
    if n <= 0 {
        Seq::empty()
    } else {
        transcript_of(messages, labels, thoughts, theme, hl, n - 1) + message_lines(
            messages[n - 1],
            label_at(labels, n - 1),
            thoughts_at(messages, thoughts, n - 1),
            theme,
            hl,
        )
    }
}

/// For every message, the lines of the transcript from its header to the blank
/// line behind its body. Reasoning above a header is no part of its message.
pub open spec fn message_ranges(
    messages: Seq<model::MessageView>,
    labels: Seq<Option<String>>,
    thoughts: Option<Seq<char>>,
    theme: Theme,
    hl: Highlighter,
) -> Seq<(int, int)> {
    Seq::new(
        messages.len(),
        |i: int|
            (
                transcript_of(messages, labels, thoughts, theme, hl, i).len() + reasoning(
                    thoughts_at(messages, thoughts, i),
                    theme,
                ).len() as int,
                transcript_of(messages, labels, thoughts, theme, hl, i + 1).len() as int,
            ),
    )
}

fn last_answer_index(messages: &Vec<Message>) -> (r: Option<usize>)
    ensures
        match r {
            Some(i) => last_answer(model::message_views(messages@)) == Some(i as int),
            None => last_answer(model::message_views(messages@)) is None,
        },
{
    let ghost views = model::message_views(messages@);
    let mut n: usize = messages.len();
    assert(views.take(n as int) =~= views);
    while n > 0
        invariant
            n <= messages@.len(),
            views == model::message_views(messages@),
            last_answer(views) == last_answer(views.take(n as int)),
        decreases n,
    {
        proof {
            assert(views.take(n as int).last() == messages@[n - 1]@);
            assert(views.take(n as int).drop_last() =~= views.take(n - 1));
        }
        match messages[n - 1].role {
            Role::Assistant => {
                return Some(n - 1);
            },
            Role::User => {},
        }
        n -= 1;
    }
    None
}

fn lines_of_message(
    m: &Message,
    label: Option<&str>,
    thoughts: Option<&str>,
    theme: &Theme,
    hl: &Highlighter,
) -> (r: (Vec<Line>, usize))
    requires
        hl.well_formed(),
    ensures
        style::line_views(r.0@) == message_lines(
            m@,
            text::optional_str(label),
            text::optional_str(thoughts),
            *theme,
            *hl,
        ),
        r.1 == reasoning(text::optional_str(thoughts), *theme).len(),
        r.1 < r.0@.len(),
{
    broadcast use {style::line_views_push, style::line_views_add};

    let mut out: Vec<Line> = match thoughts {
        Some(t) => thoughts_block_lines(t, theme),
        None => Vec::new(),
    };
    let ghost head = reasoning(text::optional_str(thoughts), *theme);
    assert(style::line_views(out@) =~= head);
    let above: usize = out.len();
    match m.role {
        Role::User => {
            out.push(
                Line::styled(
                    text::owned("\u{25cf} You"),
                    Style::new().fg(theme.orange).add_modifier(Modifier::Bold),
                ),
            );
        },
        Role::Assistant => {
            out.push(assistant_header_line(label, theme));
        },
    }
    let ghost headed = head.push(header(m@.role, text::optional_str(label), *theme));
    assert(style::line_views(out@) == headed);
    let mut rest: Vec<Line> = if m.pending {
        let mut one: Vec<Line> = Vec::new();
        one.push(Line::styled(text::owned(""), Style::new()));
        assert(style::line_views(one@) =~= body(m@, *theme, *hl));
        one
    } else {
        markdown::render(m.markdown.as_str(), theme, hl)
    };
    rest.push(Line::blank());
    assert(style::line_views(rest@) == body(m@, *theme, *hl).push(style::blank()));
    assert(style::line_views(out@ + rest@) == headed + body(m@, *theme, *hl).push(style::blank()));
    out.append(&mut rest);
    (out, above)
}

/// Renders the messages of a chat. Returns the lines, and for every message its
/// lines from the header on. `thoughts` go above the last answer.
pub fn transcript_lines(
    messages: &Vec<Message>,
    labels: &Vec<Option<String>>,
    thoughts: Option<&str>,
    theme: &Theme,
    hl: &Highlighter,
) -> (r: (Vec<Line>, Vec<(usize, usize)>))
    requires
        hl.well_formed(),
    ensures
        style::line_views(r.0@) == transcript_of(
            model::message_views(messages@),
            labels@,
            text::optional_str(thoughts),
            *theme,
            *hl,
            messages@.len() as int,
        ),
        wrap::ranges(r.1@) == message_ranges(
            model::message_views(messages@),
            labels@,
            text::optional_str(thoughts),
            *theme,
            *hl,
        ),
{
    let ghost views = model::message_views(messages@);
    let ghost shown = text::optional_str(thoughts);
    let ghost spans = message_ranges(views, labels@, shown, *theme, *hl);
    let answer = last_answer_index(messages);
    let mut out: Vec<Line> = Vec::new();
    let mut found: Vec<(usize, usize)> = Vec::new();
    let mut i: usize = 0;
    assert(style::line_views(out@) =~= Seq::empty());
    assert(wrap::ranges(found@) =~= spans.take(0));
    while i < messages.len()
        invariant
            i <= messages@.len(),
            hl.well_formed(),
            views == model::message_views(messages@),
            shown == text::optional_str(thoughts),
            spans == message_ranges(views, labels@, shown, *theme, *hl),
            match answer {
                Some(k) => last_answer(views) == Some(k as int),
                None => last_answer(views) is None,
            },
            style::line_views(out@) == transcript_of(
                views,
                labels@,
                shown,
                *theme,
                *hl,
                i as int,
            ),
            wrap::ranges(found@) == spans.take(i as int),
        decreases messages@.len() - i,
    {
        broadcast use style::line_views_add;

        let ghost before = style::line_views(out@);
        assert(views[i as int] == messages@[i as int]@);
        let is_answer = match answer {
            Some(k) => k == i,
            None => false,
        };
        let above: Option<&str> = if is_answer {
            thoughts
        } else {
            None
        };
        let label: Option<&str> = if i < labels.len() {
            match &labels[i] {
                Some(l) => Some(l.as_str()),
                None => None,
            }
        } else {
            None
        };
        let (mut own, head) = lines_of_message(&messages[i], label, above, theme, hl);
        assert(style::line_views(out@ + own@) == before + style::line_views(own@));
        assert(before.len() == out@.len());
        let from_head: usize = own.len() - head;
        out.append(&mut own);
        let start: usize = out.len() - from_head;
        let ghost old_found = found@;
        found.push((start, out.len()));
        i += 1;
        proof {
            assert(style::line_views(out@) == transcript_of(
                views,
                labels@,
                shown,
                *theme,
                *hl,
                i as int,
            ));
            assert(style::line_views(out@).len() == out@.len());
            assert(wrap::ranges(found@) =~= wrap::ranges(old_found).push(
                (start as int, out@.len() as int),
            ));
            assert(spans.take(i as int) =~= spans.take(i - 1).push(spans[i - 1]));
        }
    }
    assert(spans.take(i as int) =~= spans);
    (out, found)
}

/// A search hit to jump to.
#[derive(Clone, Copy, Debug, PartialEq, Eq, Structural)]
pub struct Jump {
    pub message_index: usize,
    pub line_index: usize,
    pub char_offset: usize,
}

/// The messages of the chat on screen.
#[derive(Clone, Copy, Debug)]
pub struct ChatContent<'a> {
    pub messages: &'a Vec<Message>,
    /// The model's label of each answer, captured when it came.
    pub labels: &'a Vec<Option<String>>,
    /// The raw reasoning behind the last answer.
    pub thoughts: Option<&'a str>,
    pub thoughts_visible: bool,
}

/// The state that the transcript is painted from.
#[derive(Clone, Copy, Debug)]
pub struct ChatWindow {
    pub active: usize,
    /// Rows scrolled up from the bottom; zero follows the bottom.
    pub scroll: u16,
    /// A hit in any chat, with the chat's index.
    pub global_jump: Option<(usize, Jump)>,
    /// A hit in the active chat.
    pub jump: Option<Jump>,
    pub selection: Option<ChatSelection>,
}

/// The transcript as it is painted.
#[derive(Debug)]
pub struct ChatSurface {
    /// Every display row, with the selection laid over it.
    pub rows: Vec<Line>,
    /// Rows hidden above the view.
    pub skip: usize,
    /// The scroll value after the jumps.
    pub scroll: u16,
    /// Where the rows come from.
    pub meta: Vec<ChatRowMeta>,
    /// The scroll hint, where the rows exceed the view.
    pub hint: Option<(Rect, Line)>,
}

/// The reasoning that is shown: none when it is switched off or holds nothing
/// but white space.
pub open spec fn shown_thoughts(thoughts: Option<Seq<char>>, visible: bool) -> Option<Seq<char>> {
    if visible {
        live::clean_label(thoughts)
    } else {
        None
    }
}

/// The width that rows are wrapped to.
pub open spec fn wrap_width(inner: Rect) -> usize {
    if inner.width == 0 {
        1
    } else {
        inner.width as usize
    }
}

/// The scroll value after one jump; a stale hit leaves it as it is.
pub open spec fn scrolled(
    scroll: u16,
    jump: Jump,
    spans: Seq<(int, int)>,
    doc: Seq<style::LineView>,
    inner: Rect,
) -> u16 {
    let w = wrap_width(inner);
    let total = transcript::all_rows(doc, w).len() as int;
    match transcript::jump_row(
        spans,
        transcript::first_rows(doc, w),
        doc,
        w,
        jump.message_index as int,
        jump.line_index as int,
        jump.char_offset as int,
    ) {
        Some(row) => ((transcript::max_scroll(total, inner.height) - transcript::jump_skip(
            transcript::lesser(row, usize::MAX as int) as usize as int,
            total,
            inner.height,
        )) % 0x1_0000) as u16,
        None => scroll,
    }
}

/// The scroll value after the pending jumps: first the one over all chats,
/// where its chat is still the active one, then the one of the chat itself.
pub open spec fn scroll_after(
    window: ChatWindow,
    spans: Seq<(int, int)>,
    doc: Seq<style::LineView>,
    inner: Rect,
) -> u16 {
    let first = match window.global_jump {
        Some((chat, jump)) if chat == window.active => scrolled(
            window.scroll,
            jump,
            spans,
            doc,
            inner,
        ),
        _ => window.scroll,
    };
    match window.jump {
        Some(jump) => scrolled(first, jump, spans, doc, inner),
        None => first,
    }
}

fn jumped(
    scroll: u16,
    jump: Jump,
    spans: &Vec<(usize, usize)>,
    first_row_of: &Vec<usize>,
    doc: &Vec<Line>,
    inner: Rect,
    total: usize,
) -> (r: u16)
    requires
        transcript::ints(first_row_of@) == transcript::first_rows(
            style::line_views(doc@),
            wrap_width(inner),
        ),
        total == transcript::all_rows(style::line_views(doc@), wrap_width(inner)).len(),
    ensures
        r == scrolled(scroll, jump, wrap::ranges(spans@), style::line_views(doc@), inner),
{
    let w: usize = if inner.width == 0 {
        1
    } else {
        inner.width as usize
    };
    assert(transcript::ints(first_row_of@).len() == first_row_of@.len());
    match search_jump_wrapped_row(
        spans,
        first_row_of,
        doc,
        w,
        jump.message_index,
        jump.line_index,
        jump.char_offset,
    ) {
        Some(row) => scroll_for_search_jump(row, total, inner.height),
        None => scroll,
    }
}

/// The lines of a chat's content.
pub open spec fn document(content: ChatContent, theme: Theme, hl: Highlighter) -> Seq<
    style::LineView,
> {
    transcript_of(
        model::message_views(content.messages@),
        content.labels@,
        shown_thoughts(text::optional_str(content.thoughts), content.thoughts_visible),
        theme,
        hl,
        content.messages@.len() as int,
    )
}

/// The lines of each message of a chat's content, from its header on.
pub open spec fn document_ranges(content: ChatContent, theme: Theme, hl: Highlighter) -> Seq<
    (int, int),
> {
    message_ranges(
        model::message_views(content.messages@),
        content.labels@,
        shown_thoughts(text::optional_str(content.thoughts), content.thoughts_visible),
        theme,
        hl,
    )
}

/// The rows of a chat's content in a view, without the selection.
pub open spec fn document_rows(content: ChatContent, inner: Rect, theme: Theme, hl: Highlighter) -> Seq<
    style::LineView,
> {
    transcript::all_rows(document(content, theme, hl), wrap_width(inner))
}

/// Builds the transcript in the view `inner`: wraps it, applies the pending
/// jumps, and lays the selection over it.
pub fn render_chat(
    content: &ChatContent,
    window: &ChatWindow,
    inner: Rect,
    spinner_line: Rect,
    theme: &Theme,
    hl: &Highlighter,
) -> (r: ChatSurface)
    requires
        hl.well_formed(),
        spinner_line.fits(),
    ensures
        style::line_views(r.rows@) == match window.selection {
            Some(sel) => transcript::highlighted(
                document_rows(*content, inner, *theme, *hl),
                sel,
            ),
            None => document_rows(*content, inner, *theme, *hl),
        },
        r.scroll == scroll_after(
            *window,
            document_ranges(*content, *theme, *hl),
            document(*content, *theme, *hl),
            inner,
        ),
        r.skip as int == transcript::hidden_rows(
            r.scroll,
            r.scroll == 0,
            document_rows(*content, inner, *theme, *hl).len() as int,
            inner.height,
        ),
        app::meta_views(r.meta@) == transcript::all_meta(
            document(*content, *theme, *hl),
            wrap_width(inner),
        ),
        r.hint is Some <==> transcript::max_scroll(
            document_rows(*content, inner, *theme, *hl).len() as int,
            inner.height,
        ) > 0 && spinner_line.width > width::columns(lines::scroll_label(r.scroll == 0)) % 65536,
        r.hint matches Some((area, line)) ==> {
            let w = (width::columns(lines::scroll_label(r.scroll == 0)) % 65536) as u16;
            &&& area == (Rect {
                x: (spinner_line.x + spinner_line.width - w) as u16,
                y: spinner_line.y,
                width: w,
                height: 1,
            })
            &&& line@ == style::line_of(
                lines::scroll_label(r.scroll == 0),
                style::fg(theme.dim),
            )
        },
{
    let trimmed = live::clean(content.thoughts);
    let thoughts: Option<&str> = if content.thoughts_visible {
        match &trimmed {
            Some(t) => Some(t.as_str()),
            None => None,
        }
    } else {
        None
    };
    let (doc, spans) = transcript_lines(content.messages, content.labels, thoughts, theme, hl);
    let w: usize = if inner.width == 0 {
        1
    } else {
        inner.width as usize
    };
    let (mut rows, first_row_of, meta) = wrap_message_rows_full(&doc, w);
    let total: usize = rows.len();
    assert(style::line_views(rows@).len() == rows@.len());
    let mut scroll: u16 = window.scroll;
    match window.global_jump {
        Some((chat, jump)) => {
            if chat == window.active {
                scroll = jumped(scroll, jump, &spans, &first_row_of, &doc, inner, total);
            }
        },
        None => {},
    }
    match window.jump {
        Some(jump) => {
            scroll = jumped(scroll, jump, &spans, &first_row_of, &doc, inner, total);
        },
        None => {},
    }
    let at_bottom = scroll == 0;
    let skip = scroll_skip(scroll, at_bottom, total, inner.height);
    let shown: usize = if inner.height == 0 {
        1
    } else {
        inner.height as usize
    };
    let hint = if total > shown {
        render_scroll_hint(at_bottom, theme, spinner_line)
    } else {
        None
    };
    match &window.selection {
        Some(sel) => {
            apply_selection_highlight(&mut rows, sel);
        },
        None => {},
    }
    ChatSurface { rows, skip, scroll, meta, hint }
}

/// The frame of the chat view.
#[derive(Debug)]
pub struct ChatFrame {
    pub title: Line,
    /// The border's color. It does not follow the focus.
    pub border: Color,
    /// Whether the border has round corners.
    pub rounded: bool,
    /// The color behind the whole view.
    pub background: Color,
    /// The status strip, at the right end of the title row.
    pub strip: Option<Line>,
    /// Where the transcript goes.
    pub inner: Rect,
}

/// What the status strip shows.
#[derive(Clone, Copy, Debug)]
pub struct StripFacts<'a> {
    pub visible: bool,
    pub cwd: Option<&'a str>,
    pub model: Option<&'a str>,
    pub usage: Option<&'a Usage>,
}

/// Builds the frame of the chat view in `area`.
pub fn chat_frame(
    active: usize,
    count: usize,
    title: &str,
    facts: &StripFacts,
    area: Rect,
    theme: &Theme,
) -> (r: ChatFrame)
    requires
        active < usize::MAX,
        facts.usage matches Some(u) ==> strip::countable(*u),
    ensures
        r.title@ == style::line_of(
            title_text(active, count, title@),
            style::fg(theme.blue).plus(Modifier::Bold),
        ),
        r.border == theme.selection,
        r.rounded,
        r.background == theme.bg,
        r.inner == layout::inner_area(area, 0),
        r.strip is Some <==> facts.visible && strip::strip_room(
            area.width,
            title_text(active, count, title@),
        ) > 0,
        r.strip matches Some(line) ==> {
            let room = strip::strip_room(area.width, title_text(active, count, title@));
            line@ == style::line_of(
                strip::left_truncated(
                    strip::strip_text(
                        text::optional_str(facts.cwd),
                        text::optional_str(facts.model),
                        match facts.usage {
                            Some(u) => Some(*u),
                            None => None,
                        },
                        room,
                    ),
                    room,
                ),
                style::fg(theme.dim),
            )
        },
{
    let left = chat_view_title(active, count, title);
    let strip = if facts.visible {
        status_strip_title(facts.cwd, facts.model, facts.usage, theme, area.width, left.as_str())
    } else {
        None
    };
    ChatFrame {
        title: Line::styled(left, Style::new().fg(theme.blue).add_modifier(Modifier::Bold)),
        border: theme.selection,
        rounded: true,
        background: theme.bg,
        strip,
        inner: block_inner(area, 0),
    }
}

/// Switching the reasoning off, or having none, leaves the transcript as it
/// would be without any.
pub proof fn law_hidden_thoughts(content: ChatContent, theme: Theme, hl: Highlighter)
    requires
        !content.thoughts_visible || live::clean_label(text::optional_str(content.thoughts)) is None,
    ensures
        document(content, theme, hl) == transcript_of(
            model::message_views(content.messages@),
            content.labels@,
            None,
            theme,
            hl,
            content.messages@.len() as int,
        ),
{
}

/// The messages take the whole transcript between them, one behind the other,
/// but for the reasoning block above the last answer.
pub proof fn law_ranges_cover(
    messages: Seq<model::MessageView>,
    labels: Seq<Option<String>>,
    thoughts: Option<Seq<char>>,
    theme: Theme,
    hl: Highlighter,
)
    requires
        messages.len() > 0,
    ensures
        ({
            let spans = message_ranges(messages, labels, thoughts, theme, hl);
            &&& spans.len() == messages.len()
            &&& spans[0].0 == reasoning(thoughts_at(messages, thoughts, 0), theme).len()
            &&& spans.last().1 == transcript_of(
                messages,
                labels,
                thoughts,
                theme,
                hl,
                messages.len() as int,
            ).len()
            &&& forall|i: int| 0 <= i < spans.len() ==> (#[trigger] spans[i]).0 + 2 <= spans[i].1
            &&& forall|i: int|
                0 < i < spans.len() ==> (#[trigger] spans[i]).0 == spans[i - 1].1 + reasoning(
                    thoughts_at(messages, thoughts, i),
                    theme,
                ).len()
        }),
{
}

proof fn lemma_transcript_grows(
    messages: Seq<model::MessageView>,
    labels: Seq<Option<String>>,
    thoughts: Option<Seq<char>>,
    theme: Theme,
    hl: Highlighter,
    m: int,
    n: int,
)
    requires
        0 <= m <= n,
    ensures
        ({
            let part = transcript_of(messages, labels, thoughts, theme, hl, m);
            let whole = transcript_of(messages, labels, thoughts, theme, hl, n);
            part.len() <= whole.len() && whole.take(part.len() as int) == part
        }),
    decreases n,
{
    let part = transcript_of(messages, labels, thoughts, theme, hl, m);
    let whole = transcript_of(messages, labels, thoughts, theme, hl, n);
    if m == n {
        assert(whole.take(part.len() as int) =~= part);
    } else {
        lemma_transcript_grows(messages, labels, thoughts, theme, hl, m, n - 1);
        let before = transcript_of(messages, labels, thoughts, theme, hl, n - 1);
        assert(whole.take(part.len() as int) =~= before.take(part.len() as int));
    }
}

/// A search hit is looked up in the line that shows it, whether or not the
/// reasoning is shown: the lines of a message begin with its header, and the
/// lines of its body follow.
pub proof fn law_hit_line(
    messages: Seq<model::MessageView>,
    labels: Seq<Option<String>>,
    thoughts: Option<Seq<char>>,
    theme: Theme,
    hl: Highlighter,
    i: int,
    line: int,
)
    requires
        0 <= i < messages.len(),
        0 <= line < body(messages[i], theme, hl).len(),
    ensures
        ({
            let doc = transcript_of(messages, labels, thoughts, theme, hl, messages.len() as int);
            let span = message_ranges(messages, labels, thoughts, theme, hl)[i];
            &&& span.0 + 1 + line < span.1 <= doc.len()
            &&& doc[span.0] == header(messages[i].role, label_at(labels, i), theme)
            &&& doc[span.0 + 1 + line] == body(messages[i], theme, hl)[line]
        }),
{
    let doc = transcript_of(messages, labels, thoughts, theme, hl, messages.len() as int);
    let part = transcript_of(messages, labels, thoughts, theme, hl, i + 1);
    let span = message_ranges(messages, labels, thoughts, theme, hl)[i];
    lemma_transcript_grows(
        messages,
        labels,
        thoughts,
        theme,
        hl,
        i + 1,
        messages.len() as int,
    );
    assert(doc[span.0] == doc.take(part.len() as int)[span.0]);
    assert(doc[span.0 + 1 + line] == doc.take(part.len() as int)[span.0 + 1 + line]);
}

/// A transcript shows each message once and in order: the reasoning behind it
/// where it has any, its header, the lines of its body, and a blank line.
pub proof fn law_transcript_shows_every_message(
    messages: Seq<model::MessageView>,
    labels: Seq<Option<String>>,
    thoughts: Option<Seq<char>>,
    theme: Theme,
    hl: Highlighter,
    i: int,
)
    requires
        0 <= i < messages.len(),
    ensures
        ({
            let doc = transcript_of(messages, labels, thoughts, theme, hl, messages.len() as int);
            let span = message_ranges(messages, labels, thoughts, theme, hl)[i];
            let said = body(messages[i], theme, hl);
            let before = reasoning(thoughts_at(messages, thoughts, i), theme);
            &&& span.1 == span.0 + said.len() + 2
            &&& span.1 <= doc.len()
            &&& doc.subrange(span.0 - before.len(), span.0) == before
            &&& doc[span.0] == header(messages[i].role, label_at(labels, i), theme)
            &&& doc.subrange(span.0 + 1, span.1 - 1) == said
            &&& doc[span.1 - 1].spans.len() == 0
        }),
{
    let doc = transcript_of(messages, labels, thoughts, theme, hl, messages.len() as int);
    let part = transcript_of(messages, labels, thoughts, theme, hl, i + 1);
    let span = message_ranges(messages, labels, thoughts, theme, hl)[i];
    let said = body(messages[i], theme, hl);
    let before = reasoning(thoughts_at(messages, thoughts, i), theme);
    lemma_transcript_grows(
        messages,
        labels,
        thoughts,
        theme,
        hl,
        i + 1,
        messages.len() as int,
    );
    assert(part =~= doc.take(part.len() as int));
    assert forall|k: int| 0 <= k < part.len() implies doc[k] == part[k] by {
        assert(doc.take(part.len() as int)[k] == doc[k]);
    }
    assert(doc.subrange(span.0 - before.len(), span.0) =~= before);
    assert(doc.subrange(span.0 + 1, span.1 - 1) =~= said);
}

/// The reasoning stands with the last answer and with no other message.
pub proof fn law_thoughts_stand_with_the_last_answer(
    messages: Seq<model::MessageView>,
    thoughts: Option<Seq<char>>,
    i: int,
)
    requires
        0 <= i < messages.len(),
    ensures
        messages[i].role == Role::Assistant && (forall|k: int|
            i < k < messages.len() ==> (#[trigger] messages[k]).role == Role::User)
            ==> thoughts_at(messages, thoughts, i) == thoughts,
        messages[i].role == Role::User || (exists|k: int|
            i < k < messages.len() && (#[trigger] messages[k]).role == Role::Assistant)
            ==> thoughts_at(messages, thoughts, i) is None,
    decreases messages.len(),
{
    lemma_last_answer(messages);
}

proof fn lemma_last_answer(messages: Seq<model::MessageView>)
    ensures
        match last_answer(messages) {
            Some(k) => 0 <= k < messages.len() && messages[k].role == Role::Assistant && forall|
                j: int,
            |
                k < j < messages.len() ==> (#[trigger] messages[j]).role == Role::User,
            None => forall|j: int|
                0 <= j < messages.len() ==> (#[trigger] messages[j]).role == Role::User,
        },
    decreases messages.len(),
{
    if messages.len() > 0 && messages.last().role != Role::Assistant {
        let front = messages.drop_last();
        lemma_last_answer(front);
        assert forall|j: int| 0 <= j < front.len() implies front[j] == messages[j] by {}
    }
}

/// A header names who speaks, and an answer's the model where it is known.
pub proof fn law_headers_name_the_speaker(label: Option<Seq<char>>, theme: Theme)
    ensures
        header(Role::User, label, theme).text() == "\u{25cf} You"@,
        live::clean_label(label) is None ==> header(Role::Assistant, label, theme).text()
            == "\u{25cf} Chibi"@,
        live::clean_label(label) matches Some(l) ==> header(Role::Assistant, label, theme).text()
            == "\u{25cf} Chibi"@ + (" ("@ + l + ")"@),
{
    reveal_with_fuel(style::spans_text, 3);
    let you = header(Role::User, label, theme);
    assert(you.spans.drop_last() =~= Seq::empty());
    assert(you.text() =~= "\u{25cf} You"@);
    let bot = header(Role::Assistant, label, theme);
    match live::clean_label(label) {
        Some(l) => {
            assert(bot.spans.drop_last().drop_last() =~= Seq::empty());
            assert(bot.text() =~= "\u{25cf} Chibi"@ + (" ("@ + l + ")"@));
        },
        None => {
            assert(bot.spans.drop_last() =~= Seq::empty());
            assert(bot.text() =~= "\u{25cf} Chibi"@);
        },
    }
}

/// A placeholder shows as one empty line, every other message as its markdown.
pub proof fn law_bodies(m: model::MessageView, theme: Theme, hl: Highlighter)
    ensures
        m.pending ==> body(m, theme, hl).len() == 1 && body(m, theme, hl)[0].text().len() == 0,
        !m.pending ==> body(m, theme, hl) == markdown::rendered(
            markdown::events::markdown_events(m.markdown),
            theme,
            hl,
        ),
{
    reveal_strlit("");
    reveal_with_fuel(style::spans_text, 2);
    if m.pending {
        assert(body(m, theme, hl)[0].spans.drop_last() =~= Seq::empty());
        assert(body(m, theme, hl)[0].text().len() == 0);
    }
}

/// Without a jump the scroll stays. A jump into another chat is not this chat's.
/// A jump of this chat brings its row into the view, and the one into the active
/// chat comes last.
pub proof fn law_jumps_scroll_the_chat(
    window: ChatWindow,
    spans: Seq<(int, int)>,
    doc: Seq<style::LineView>,
    inner: Rect,
)
    ensures
        window.jump is None && (window.global_jump is None || (window.global_jump->0).0
            != window.active) ==> scroll_after(window, spans, doc, inner) == window.scroll,
        ({
            let w = wrap_width(inner);
            let total = transcript::all_rows(doc, w).len() as int;
            window.jump matches Some(j) ==> {
                let row = transcript::jump_row(
                    spans,
                    transcript::first_rows(doc, w),
                    doc,
                    w,
                    j.message_index as int,
                    j.line_index as int,
                    j.char_offset as int,
                );
                row is Some && 0 <= row->0 <= usize::MAX && transcript::max_scroll(
                    total,
                    inner.height,
                ) <= u16::MAX ==> transcript::hidden_rows(
                    scroll_after(window, spans, doc, inner),
                    false,
                    total,
                    inner.height,
                ) == transcript::jump_skip(row->0, total, inner.height)
            }
        }),
{
    let w = wrap_width(inner);
    let total = transcript::all_rows(doc, w).len() as int;
    if window.jump is Some {
        let j = window.jump->0;
        let row = transcript::jump_row(
            spans,
            transcript::first_rows(doc, w),
            doc,
            w,
            j.message_index as int,
            j.line_index as int,
            j.char_offset as int,
        );
        if row is Some && 0 <= row->0 <= usize::MAX && transcript::max_scroll(total, inner.height)
            <= u16::MAX {
            transcript::law_jump_lands(
                row->0,
                total,
                inner.height,
                scroll_after(window, spans, doc, inner),
            );
        }
    }
}

/// The title tells which of how many chats this is, and its name on one line.
pub proof fn law_title_reads(active: usize, count: usize, title: Seq<char>)
    ensures
        title_text(active, count, title) == " #"@ + text::decimal((active + 1) as nat) + ("/"@
            + text::decimal(count as nat) + (" \u{00b7} "@ + Seq::new(
            title.len(),
            |i: int|
                if title[i] == '\n' {
                    ' '
                } else {
                    title[i]
                },
        ) + " "@)),
{
    assert(text::replaced(title, '\n', ' ') =~= Seq::new(
        title.len(),
        |i: int|
            if title[i] == '\n' {
                ' '
            } else {
                title[i]
            },
    ));
}

/// Reasoning shows where it is wanted and holds more than white space, without
/// the white space at its ends.
pub proof fn law_wanted_thoughts(thoughts: Option<Seq<char>>)
    ensures
        shown_thoughts(thoughts, false) is None,
        thoughts matches Some(t) ==> text::trim(t).len() > 0 ==> shown_thoughts(thoughts, true)
            == Some(text::trim(t)),
        thoughts is None || text::trim(thoughts->0).len() == 0 ==> shown_thoughts(thoughts, true)
            is None,
{
}

/// The chat's view at rest ends with the last row of the transcript; a selection
/// changes no letter of it.
pub proof fn law_chat_rests_at_the_bottom(
    content: &ChatContent,
    window: &ChatWindow,
    inner: Rect,
    spinner_line: Rect,
    theme: &Theme,
    hl: &Highlighter,
    r: ChatSurface,
)
    requires
        call_ensures(render_chat, (content, window, inner, spinner_line, theme, hl), r),
        window.scroll == 0,
        window.jump is None,
        window.global_jump is None,
        inner.height >= 1,
    ensures
        r.rows@.len() == document_rows(*content, inner, *theme, *hl).len(),
        r.scroll == 0,
        r.rows@.len() <= inner.height ==> r.skip == 0,
        r.rows@.len() > inner.height ==> r.skip + inner.height == r.rows@.len(),
        forall|i: int|
            0 <= i < r.rows@.len() ==> (#[trigger] r.rows@[i])@.text() == document_rows(
                *content,
                inner,
                *theme,
                *hl,
            )[i].text(),
{
    let doc = document_rows(*content, inner, *theme, *hl);
    let views = style::line_views(r.rows@);
    assert(views.len() == r.rows@.len());
    transcript::law_scrolling(0, doc.len() as int, inner.height);
    assert forall|i: int| 0 <= i < r.rows@.len() implies (#[trigger] r.rows@[i])@.text()
        == doc[i].text() by {
        assert(views[i] == r.rows@[i]@);
        if window.selection is Some {
            transcript::law_highlight_keeps_text(doc, window.selection->0, i);
        }
    }
}

/// The lines of a transcript and the lines of each message come from the same
/// messages, in order.
pub proof fn law_transcript_lines(
    messages: &Vec<Message>,
    labels: &Vec<Option<String>>,
    thoughts: Option<&str>,
    theme: &Theme,
    hl: &Highlighter,
    r: (Vec<Line>, Vec<(usize, usize)>),
    i: int,
)
    requires
        call_ensures(transcript_lines, (messages, labels, thoughts, theme, hl), r),
        0 <= i < messages@.len(),
    ensures
        r.1@.len() == messages@.len(),
        r.1@[i].0 < r.1@[i].1 <= r.0@.len(),
        r.0@[r.1@[i].0 as int]@ == header(messages@[i].role, label_at(labels@, i), *theme),
        r.1@[i].1 - r.1@[i].0 == body(messages@[i]@, *theme, *hl).len() + 2,
{
    let views = model::message_views(messages@);
    assert(views[i] == messages@[i]@);
    law_transcript_shows_every_message(
        views,
        labels@,
        text::optional_str(thoughts),
        *theme,
        *hl,
        i,
    );
    let spans = message_ranges(views, labels@, text::optional_str(thoughts), *theme, *hl);
    assert(wrap::ranges(r.1@).len() == r.1@.len());
    assert(spans.len() == views.len());
    assert(wrap::ranges(r.1@)[i] == (r.1@[i].0 as int, r.1@[i].1 as int));
    assert(style::line_views(r.0@).len() == r.0@.len());
    assert(style::line_views(r.0@)[r.1@[i].0 as int] == r.0@[r.1@[i].0 as int]@);
}

} // verus!
