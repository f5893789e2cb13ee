//! Message popups: wrapped text over a decision hint, in a box at the middle of
//! the frame.

use vstd::prelude::*;
use crate::app::StopResetAction;
use crate::popup::ErrorPopup;
use crate::style::{Color, Line, Modifier, Rect, Style};
use crate::theme::Theme;
use crate::ui::layout;
use crate::ui::layout::block_inner;
use crate::width::{str_width, str_width_u16};
use crate::{popup, style, text, width};

verus! {

/// The columns of a line when `word` joins it.
pub open spec fn joined_columns(current: Seq<char>, word: Seq<char>) -> int {
    if current.len() == 0 {
        width::columns(word) as int
    } else {
        (width::columns(current) + 1 + width::columns(word)) as int
    }
}

/// A line after `word` has joined it.
pub open spec fn joined(current: Seq<char>, word: Seq<char>) -> Seq<char> {
    if current.len() == 0 {
        word
    } else {
        current.push(' ') + word
    }
}

/// The lines of a paragraph, from its `words` and the line in progress: a word
/// joins the line where it fits, else it starts a new one. No word is split,
/// even where it is too wide for any line.
pub open spec fn wrap_words(words: Seq<Seq<char>>, current: Seq<char>, room: int) -> Seq<Seq<char>>
    decreases words.len(),
{
    if words.len() == 0 {
        seq![current]
    } else if joined_columns(current, words.first()) <= room {
        wrap_words(words.drop_first(), joined(current, words.first()), room)
    } else {
        (if current.len() > 0 {
            seq![current]
        } else {
            Seq::empty()
        }) + wrap_words(words.drop_first(), words.first(), room)
    }
}

/// The lines of a list of paragraphs.
pub open spec fn wrap_paragraphs(paragraphs: Seq<Seq<char>>, room: int) -> Seq<Seq<char>>
    decreases paragraphs.len(),
{
    if paragraphs.len() == 0 {
        Seq::empty()
    } else {
        wrap_words(text::split(paragraphs.first(), ' '), Seq::empty(), room) + wrap_paragraphs(
            paragraphs.drop_first(),
            room,
        )
    }
}

/// The lines of a text in `max_width` columns, at least one.
pub open spec fn wrapped(s: Seq<char>, max_width: usize) -> Seq<Seq<char>> {
    wrap_paragraphs(
        text::split(s, '\n'),
        if max_width == 0 {
            1
        } else {
            max_width as int
        },
    )
}

/// The words of a list of paragraphs, in order.
pub open spec fn words_of(paragraphs: Seq<Seq<char>>) -> Seq<Seq<char>>
    decreases paragraphs.len(),
{
    if paragraphs.len() == 0 {
        Seq::empty()
    } else {
        text::split(paragraphs.first(), ' ') + words_of(paragraphs.drop_first())
    }
}

/// Whether every word stands whole on the line and from the character that `at`
/// gives for it, and the words follow each other without overlap.
pub open spec fn placed(
    lines: Seq<Seq<char>>,
    words: Seq<Seq<char>>,
    at: Seq<(int, int)>,
) -> bool {
    &&& at.len() == words.len()
    &&& forall|i: int|
        0 <= i < at.len() ==> {
            let (line, from) = #[trigger] at[i];
            &&& 0 <= line < lines.len()
            &&& 0 <= from <= from + words[i].len() <= lines[line].len()
            &&& lines[line].subrange(from, from + words[i].len()) == words[i]
        }
    &&& forall|i: int, j: int|
        0 <= i < j < at.len() ==> (#[trigger] at[i]).0 < (#[trigger] at[j]).0 || (at[i].0
            == at[j].0 && at[i].1 + words[i].len() <= at[j].1)
}

/// Places, `n` lines further down.
spec fn lowered(at: Seq<(int, int)>, n: int) -> Seq<(int, int)> {
    Seq::new(at.len(), |i: int| (at[i].0 + n, at[i].1))
}

proof fn lemma_placed_below(
    head: Seq<Seq<char>>,
    lines: Seq<Seq<char>>,
    words: Seq<Seq<char>>,
    at: Seq<(int, int)>,
)
    requires
        placed(lines, words, at),
    ensures
        placed(head + lines, words, lowered(at, head.len() as int)),
{
    let low = lowered(at, head.len() as int);
    assert forall|i: int| 0 <= i < low.len() implies {
        let (line, from) = #[trigger] low[i];
        &&& 0 <= line < (head + lines).len()
        &&& 0 <= from <= from + words[i].len() <= (head + lines)[line].len()
        &&& (head + lines)[line].subrange(from, from + words[i].len()) == words[i]
    } by {
        assert(at[i].0 + head.len() == low[i].0);
        assert((head + lines)[low[i].0] == lines[at[i].0]);
    }
    assert forall|i: int, j: int| 0 <= i < j < low.len() implies (#[trigger] low[i]).0 < (
    #[trigger] low[j]).0 || (low[i].0 == low[j].0 && low[i].1 + words[i].len() <= low[j].1) by {
        assert(at[i].0 < at[j].0 || (at[i].0 == at[j].0 && at[i].1 + words[i].len() <= at[j].1));
    }
}

proof fn lemma_words_placed(words: Seq<Seq<char>>, current: Seq<char>, room: int) -> (at: Seq<
    (int, int),
>)
    ensures
        wrap_words(words, current, room).len() >= 1,
        current.len() <= wrap_words(words, current, room)[0].len(),
        wrap_words(words, current, room)[0].take(current.len() as int) == current,
        placed(wrap_words(words, current, room), words, at),
        forall|i: int|
            0 <= i < at.len() && (#[trigger] at[i]).0 == 0 ==> at[i].1 >= current.len(),
    decreases words.len(),
{
    let lines = wrap_words(words, current, room);
    if words.len() == 0 {
        assert(lines[0].take(current.len() as int) =~= current);
        Seq::empty()
    } else {
        let word = words.first();
        let begun = if joined_columns(current, word) <= room {
            joined(current, word)
        } else {
            word
        };
        let rest = lemma_words_placed(words.drop_first(), begun, room);
        let below = wrap_words(words.drop_first(), begun, room);
        let head: Seq<Seq<char>> = if joined_columns(current, word) > room && current.len() > 0 {
            seq![current]
        } else {
            Seq::empty()
        };
        assert(lines =~= head + below);
        lemma_placed_below(head, below, words.drop_first(), rest);
        let low = lowered(rest, head.len() as int);
        let first = (head.len() as int, begun.len() - word.len());
        let at = seq![first] + low;
        assert(lines[first.0] == below[0]);
        assert(lines[first.0].subrange(first.1, first.1 + word.len()) =~= begun.skip(first.1)) by {
            assert(below[0].take(begun.len() as int) == begun);
            assert forall|k: int| first.1 <= k < begun.len() implies below[0][k] == begun[k] by {
                assert(below[0].take(begun.len() as int)[k] == below[0][k]);
            }
        }
        assert(begun.skip(first.1) =~= word);
        assert forall|i: int| 0 <= i < at.len() implies {
            let (line, from) = #[trigger] at[i];
            &&& 0 <= line < lines.len()
            &&& 0 <= from <= from + words[i].len() <= lines[line].len()
            &&& lines[line].subrange(from, from + words[i].len()) == words[i]
        } by {
            if i > 0 {
                assert(at[i] == low[i - 1]);
                assert(words.drop_first()[i - 1] == words[i]);
            }
        }
        assert forall|i: int, j: int| 0 <= i < j < at.len() implies (#[trigger] at[i]).0 < (
        #[trigger] at[j]).0 || (at[i].0 == at[j].0 && at[i].1 + words[i].len() <= at[j].1) by {
            assert(at[j] == low[j - 1]);
            if i > 0 {
                assert(at[i] == low[i - 1]);
                assert(words.drop_first()[i - 1] == words[i]);
            } else {
                assert(rest[j - 1].0 + head.len() == low[j - 1].0);
            }
        }
        assert forall|i: int| 0 <= i < at.len() && (#[trigger] at[i]).0 == 0 implies at[i].1
            >= current.len() by {
            if i > 0 {
                assert(at[i] == low[i - 1]);
                assert(rest[i - 1].0 + head.len() == low[i - 1].0);
            }
        }
        if head.len() == 0 {
            assert(lines[0].take(current.len() as int) =~= current) by {
                assert(below[0].take(begun.len() as int) == begun);
                assert forall|k: int| 0 <= k < current.len() implies below[0][k] == current[k] by {
                    assert(below[0].take(begun.len() as int)[k] == below[0][k]);
                    assert(begun[k] == current[k]);
                }
            }
        } else {
            assert(lines[0].take(current.len() as int) =~= current);
        }
        at
    }
}

proof fn lemma_paragraphs_placed(paragraphs: Seq<Seq<char>>, room: int) -> (at: Seq<(int, int)>)
    ensures
        placed(wrap_paragraphs(paragraphs, room), words_of(paragraphs), at),
    decreases paragraphs.len(),
{
    if paragraphs.len() == 0 {
        Seq::empty()
    } else {
        let words = text::split(paragraphs.first(), ' ');
        let head = wrap_words(words, Seq::empty(), room);
        let first = lemma_words_placed(words, Seq::empty(), room);
        let later = lemma_paragraphs_placed(paragraphs.drop_first(), room);
        let below = wrap_paragraphs(paragraphs.drop_first(), room);
        lemma_placed_below(head, below, words_of(paragraphs.drop_first()), later);
        let low = lowered(later, head.len() as int);
        let at = first + low;
        let lines = head + below;
        let all = words_of(paragraphs);
        assert forall|i: int| 0 <= i < at.len() implies {
            let (line, from) = #[trigger] at[i];
            &&& 0 <= line < lines.len()
            &&& 0 <= from <= from + all[i].len() <= lines[line].len()
            &&& lines[line].subrange(from, from + all[i].len()) == all[i]
        } by {
            if i < first.len() {
                assert(at[i] == first[i]);
                assert(lines[first[i].0] == head[first[i].0]);
            } else {
                assert(at[i] == low[i - first.len()]);
            }
        }
        assert forall|i: int, j: int| 0 <= i < j < at.len() implies (#[trigger] at[i]).0 < (
        #[trigger] at[j]).0 || (at[i].0 == at[j].0 && at[i].1 + all[i].len() <= at[j].1) by {
            if j < first.len() {
                assert(at[i] == first[i] && at[j] == first[j]);
            } else if i >= first.len() {
                assert(at[i] == low[i - first.len()] && at[j] == low[j - first.len()]);
            } else {
                assert(at[i] == first[i] && at[j] == low[j - first.len()]);
                assert(later[j - first.len()].0 >= 0);
            }
        }
        at
    }
}

/// Wrapping never splits a word: each one stands whole on one of the lines, and
/// they keep their order.
pub proof fn law_words_stay_whole(s: Seq<char>, max_width: usize)
    ensures
        exists|at: Seq<(int, int)>| #[trigger]
            placed(wrapped(s, max_width), words_of(text::split(s, '\n')), at),
{
    let at = lemma_paragraphs_placed(
        text::split(s, '\n'),
        if max_width == 0 {
            1
        } else {
            max_width as int
        },
    );
    assert(placed(wrapped(s, max_width), words_of(text::split(s, '\n')), at));
}

/// A line of text in one style; the empty text makes a line without spans.
pub open spec fn text_line(s: Seq<char>, st: Style) -> style::LineView {
    if s.len() == 0 {
        style::blank()
    } else {
        style::line_of(s, st)
    }
}

/// Lines of text in one style.
pub open spec fn text_lines(lines: Seq<Seq<char>>, st: Style) -> Seq<style::LineView> {
    Seq::new(lines.len(), |i: int| text_line(lines[i], st))
}

/// Wraps one paragraph behind the lines of `out`.
fn wrap_paragraph(out: &mut Vec<String>, paragraph: &str, room: usize)
    requires
        room >= 1,
    ensures
        text::texts(final(out)@) == text::texts(old(out)@) + wrap_words(
            text::split(paragraph@, ' '),
            Seq::empty(),
            room as int,
        ),
{
    broadcast use text::texts_push;

    let words = text::split_on(paragraph, ' ');
    let ghost all = text::split(paragraph@, ' ');
    let ghost goal = text::texts(old(out)@) + wrap_words(all, Seq::empty(), room as int);
    let mut current = String::new();
    let mut i: usize = 0;
    assert(all.skip(0) =~= all);
    while i < words.len()
        invariant
            room >= 1,
            i <= words@.len(),
            text::texts(words@) == all,
            goal == text::texts(out@) + wrap_words(all.skip(i as int), current@, room as int),
        decreases words@.len() - i,
    {
        broadcast use text::texts_push;

        assert(all[i as int] == words@[i as int]@);
        assert(all.skip(i as int).first() == words@[i as int]@);
        assert(all.skip(i as int).drop_first() =~= all.skip(i + 1));
        let word = words[i].as_str();
        let ww = str_width(word);
        let empty = current.as_str().is_empty();
        let fits = if empty {
            ww <= room
        } else {
            let cw = str_width(current.as_str());
            cw < room && ww <= room - cw - 1
        };
        let ghost line = current@;
        if fits {
            if !empty {
                current.push(' ');
            }
            current.append(word);
            assert(current@ =~= joined(line, word@));
        } else {
            let ghost before = text::texts(out@);
            let ghost rest = wrap_words(all.skip(i + 1), word@, room as int);
            let mut full = text::owned(word);
            core::mem::swap(&mut full, &mut current);
            if !empty {
                out.push(full);
                assert(before + (seq![line] + rest) =~= before.push(line) + rest);
            } else {
                assert(before + (Seq::<Seq<char>>::empty() + rest) =~= before + rest);
            }
        }
        i += 1;
    }
    let ghost last = current@;
    assert(text::texts(out@) + seq![last] =~= text::texts(out@).push(last));
    out.push(current);
}

fn wrap_strings(s: &str, max_width: usize) -> (r: Vec<String>)
    ensures
        text::texts(r@) == wrapped(s@, max_width),
{
    let room: usize = if max_width == 0 {
        1
    } else {
        max_width
    };
    let paragraphs = text::split_on(s, '\n');
    let ghost all = text::split(s@, '\n');
    let ghost goal = wrapped(s@, max_width);
    let mut out: Vec<String> = Vec::new();
    let mut i: usize = 0;
    assert(all.skip(0) =~= all);
    assert(text::texts(out@) + goal =~= goal);
    while i < paragraphs.len()
        invariant
            room >= 1,
            i <= paragraphs@.len(),
            text::texts(paragraphs@) == all,
            goal == text::texts(out@) + wrap_paragraphs(all.skip(i as int), room as int),
        decreases paragraphs@.len() - i,
    {
        assert(all[i as int] == paragraphs@[i as int]@);
        assert(all.skip(i as int).first() == paragraphs@[i as int]@);
        assert(all.skip(i as int).drop_first() =~= all.skip(i + 1));
        let ghost before = text::texts(out@);
        wrap_paragraph(&mut out, paragraphs[i].as_str(), room);
        proof {
            let first = wrap_words(
                text::split(paragraphs@[i as int]@, ' '),
                Seq::empty(),
                room as int,
            );
            let rest = wrap_paragraphs(all.skip(i + 1), room as int);
            assert(before + first + rest =~= before + (first + rest));
        }
        i += 1;
    }
    assert(text::texts(out@) + Seq::<Seq<char>>::empty() =~= text::texts(out@));
    out
}

fn styled_lines(texts: Vec<String>, st: Style) -> (r: Vec<Line>)
    ensures
        style::line_views(r@) == text_lines(text::texts(texts@), st),
{
    let ghost goal = text_lines(text::texts(texts@), st);
    let mut lines: Vec<Line> = Vec::new();
    let mut i: usize = 0;
    assert(style::line_views(lines@) =~= goal.take(0));
    while i < texts.len()
        invariant
            i <= texts@.len(),
            goal == text_lines(text::texts(texts@), st),
            style::line_views(lines@) == goal.take(i as int),
        decreases texts@.len() - i,
    {
        broadcast use style::line_views_push;

        assert(text::texts(texts@)[i as int] == texts@[i as int]@);
        if texts[i].as_str().is_empty() {
            lines.push(Line::blank());
        } else {
            lines.push(Line::styled(text::owned(texts[i].as_str()), st));
        }
        i += 1;
        assert(goal.take(i as int) =~= goal.take(i - 1).push(goal[i - 1]));
    }
    assert(goal.take(i as int) =~= goal);
    lines
}

/// Greedy word wrap at display-width boundaries; never splits words.
pub fn wrap_text(s: &str, max_width: usize) -> (r: Vec<Line>)
    ensures
        style::line_views(r@) == text_lines(wrapped(s@, max_width), style::plain()),
{
    styled_lines(wrap_strings(s, max_width), Style::new())
}

/// A box of `width` by `height` cells at the middle of `frame`.
pub open spec fn centered(frame: Rect, width: u16, height: u16) -> Rect {
    Rect {
        x: (frame.x + layout::less(frame.width as int, width as int) / 2) as u16,
        y: (frame.y + layout::less(frame.height as int, height as int) / 2) as u16,
        width,
        height,
    }
}

/// Puts a box at the middle of a frame.
pub fn center(frame: Rect, width: u16, height: u16) -> (r: Rect)
    requires
        frame.fits(),
    ensures
        r == centered(frame, width, height),
{
    Rect::new(
        frame.x + frame.width.saturating_sub(width) / 2,
        frame.y + frame.height.saturating_sub(height) / 2,
        width,
        height,
    )
}

/// The height of a popup that wants `wanted` rows: two rows of the frame stay
/// free, and three rows are the least.
pub open spec fn popup_height(frame_height: u16, wanted: int) -> u16 {
    let most = layout::less(frame_height as int, 2);
    let h = if wanted < most {
        wanted
    } else {
        most
    };
    (if h < 3 {
        3
    } else {
        h
    }) as u16
}

/// Computes the height of a popup.
pub fn height_of_popup(frame_height: u16, wanted: u16) -> (r: u16)
    ensures
        r == popup_height(frame_height, wanted as int),
        r >= 3,
{
    let most: u16 = frame_height.saturating_sub(2);
    let h: u16 = if wanted < most {
        wanted
    } else {
        most
    };
    if h < 3 {
        3
    } else {
        h
    }
}

/// The most columns that a popup takes: four of the frame stay free, and twenty
/// are the least.
pub open spec fn max_popup_width(frame_width: u16) -> int {
    if frame_width < 24 {
        20
    } else {
        frame_width - 4
    }
}

/// The width of a popup that wants `wanted` columns.
pub open spec fn popup_width(frame_width: u16, wanted: int) -> u16 {
    (if wanted < 20 {
        20
    } else if wanted > max_popup_width(frame_width) {
        max_popup_width(frame_width)
    } else {
        wanted
    }) as u16
}

/// Computes the width of a popup.
pub fn width_of_popup(frame_width: u16, wanted: u32) -> (r: u16)
    ensures
        r == popup_width(frame_width, wanted as int),
        r >= 20,
{
    let most: u16 = if frame_width < 24 {
        20
    } else {
        frame_width - 4
    };
    if wanted < 20 {
        20
    } else if wanted > most as u32 {
        most
    } else {
        wanted as u16
    }
}

/// A popup as it is painted.
#[derive(Debug)]
pub struct Popup {
    pub area: Rect,
    /// Where the lines go.
    pub inner: Rect,
    pub title: Line,
    pub border: Color,
    pub rounded: bool,
    /// The color behind everything inside the border.
    pub background: Color,
    pub lines: Vec<Line>,
    /// Lines hidden above the first one shown.
    pub scroll: u16,
}

/// The lines hidden so that the last one shows.
pub open spec fn tail_scroll(total: int, inner: Rect) -> int {
    layout::less(total, inner.height as int) % 0x1_0000
}

/// Computes the lines hidden so that the last one shows.
pub fn scroll_to_tail(total: usize, inner: Rect) -> (r: u16)
    ensures
        r as int == tail_scroll(total as int, inner),
{
    (total.saturating_sub(inner.height as usize) % 0x1_0000) as u16
}

/// What a message popup says.
pub struct PopupText {
    pub title: Seq<char>,
    pub message: Seq<char>,
    pub message_style: Style,
    pub hint: Seq<char>,
}

/// Whether `popup` shows `said` in a box of `width` by `height` cells at the
/// middle of `frame`: the message, wrapped, with the hint behind it. Where not
/// everything fits, the hint stays.
pub open spec fn shows(
    popup: Popup,
    frame: Rect,
    width: u16,
    height: u16,
    border: Color,
    said: PopupText,
    theme: Theme,
) -> bool {
    &&& popup.area == centered(frame, width, height)
    &&& popup.inner == layout::inner_area(popup.area, 1)
    &&& popup.title@ == style::line_of(said.title, style::fg(border).plus(Modifier::Bold))
    &&& popup.border == border
    &&& popup.background == theme.bg
    &&& style::line_views(popup.lines@) == text_lines(
        wrapped(said.message, popup.inner.width as usize),
        said.message_style,
    ).push(style::line_of(said.hint, style::fg(theme.yellow)))
    &&& popup.scroll as int == tail_scroll(popup.lines@.len() as int, popup.inner)
}

fn message_popup(
    area: Rect,
    title: &str,
    border: Color,
    rounded: bool,
    message: &str,
    message_style: Style,
    hint: &str,
    theme: &Theme,
) -> (r: Popup)
    ensures
        r.area == area,
        r.rounded == rounded,
        forall|frame: Rect, width: u16, height: u16|
            area == centered(frame, width, height) ==> #[trigger] shows(
                r,
                frame,
                width,
                height,
                border,
                PopupText { title: title@, message: message@, message_style, hint: hint@ },
                *theme,
            ),
{
    broadcast use style::line_views_push;

    let inner = block_inner(area, 1);
    let mut lines: Vec<Line> = styled_lines(
        wrap_strings(message, inner.width as usize),
        message_style,
    );
    lines.push(Line::styled(text::owned(hint), Style::new().fg(theme.yellow)));
    let scroll = scroll_to_tail(lines.len(), inner);
    Popup {
        area,
        inner,
        title: Line::styled(
            text::owned(title),
            Style::new().fg(border).add_modifier(Modifier::Bold),
        ),
        border,
        rounded,
        background: theme.bg,
        lines,
        scroll,
    }
}

/// The larger of two numbers.
pub open spec fn greater(a: int, b: int) -> int {
    if a > b {
        a
    } else {
        b
    }
}

/// The question of the quit confirmation.
pub const QUIT_MESSAGE: &'static str = "Quit chibi-tui?";

/// The decision hint of the quit confirmation.
pub const QUIT_HINT: &'static str = "y/Enter quit \u{00b7} Esc/n stay";

/// The width of the quit confirmation: its wider row, with a floor.
pub open spec fn quit_width(frame_width: u16) -> u16 {
    popup_width(
        frame_width,
        greater(
            (greater(
                width::columns(QUIT_MESSAGE@) as int,
                width::columns(QUIT_HINT@) as int,
            ) % 0x1_0000) + 4,
            30,
        ),
    )
}

/// The quit confirmation: a rounded banner of four rows where the frame allows.
pub fn render_quit_confirm(frame: Rect, theme: &Theme) -> (r: Popup)
    requires
        frame.fits(),
    ensures
        shows(
            r,
            frame,
            quit_width(frame.width),
            popup_height(frame.height, 4),
            theme.red,
            PopupText {
                title: " Quit "@,
                message: QUIT_MESSAGE@,
                message_style: style::fg(theme.fg),
                hint: QUIT_HINT@,
            },
            *theme,
        ),
        r.rounded,
{
    let message = str_width(QUIT_MESSAGE);
    let hint = str_width(QUIT_HINT);
    let widest: usize = if message > hint {
        message
    } else {
        hint
    };
    let needed: u32 = (widest % 0x1_0000) as u32 + 4;
    let wanted: u32 = if needed > 30 {
        needed
    } else {
        30
    };
    let area = center(
        frame,
        width_of_popup(frame.width, wanted),
        height_of_popup(frame.height, 4),
    );
    message_popup(
        area,
        " Quit ",
        theme.red,
        true,
        QUIT_MESSAGE,
        Style::new().fg(theme.fg),
        QUIT_HINT,
        theme,
    )
}

/// Columns of a message and of a hint, each as a screen coordinate, with six for
/// the box.
pub open spec fn text_need(message: Seq<char>, hint: Seq<char>) -> int {
    (width::columns(message) % 65536 + width::columns(hint) % 65536) as int + 6
}

fn needed_columns(message: &str, hint: &str) -> (r: u32)
    ensures
        r as int == text_need(message@, hint@),
{
    str_width_u16(message) as u32 + str_width_u16(hint) as u32 + 6
}

/// The width of the error popup: its text, and at least forty columns where the
/// frame has them.
pub open spec fn error_width(frame_width: u16, message: Seq<char>) -> u16 {
    popup_width(frame_width, greater(text_need(message, popup::HINT@), 40))
}

/// The error popup. Tiny frames just clip it.
pub fn render_error_popup(message: &str, frame: Rect, theme: &Theme) -> (r: Popup)
    requires
        frame.fits(),
    ensures
        shows(
            r,
            frame,
            error_width(frame.width, message@),
            popup_height(frame.height, 5),
            theme.red,
            PopupText {
                title: " Backend error "@,
                message: message@,
                message_style: style::plain(),
                hint: popup::HINT@,
            },
            *theme,
        ),
        !r.rounded,
{
    let need = needed_columns(message, ErrorPopup::hint());
    let wanted: u32 = if need > 40 {
        need
    } else {
        40
    };
    let area = center(
        frame,
        width_of_popup(frame.width, wanted),
        height_of_popup(frame.height, 5),
    );
    message_popup(
        area,
        " Backend error ",
        theme.red,
        false,
        message,
        Style::new(),
        ErrorPopup::hint(),
        theme,
    )
}

/// The decision hint of the popups that guard a command.
pub const CONFIRM_HINT: &'static str =
    "y/Enter confirm \u{00b7} Esc/n cancel \u{00b7} Ctrl+C quit";

/// The width of a confirmation: its text, and at least half of the frame.
pub open spec fn confirm_width(frame_width: u16, message: Seq<char>) -> u16 {
    popup_width(
        frame_width,
        greater(text_need(message, CONFIRM_HINT@), (frame_width / 2) as int),
    )
}

fn confirm_popup(title: &str, message: &str, frame: Rect, theme: &Theme) -> (r: Popup)
    requires
        frame.fits(),
    ensures
        shows(
            r,
            frame,
            confirm_width(frame.width, message@),
            popup_height(frame.height, 5),
            theme.red,
            PopupText {
                title: title@,
                message: message@,
                message_style: style::plain(),
                hint: CONFIRM_HINT@,
            },
            *theme,
        ),
        !r.rounded,
{
    let need = needed_columns(message, CONFIRM_HINT);
    let half: u32 = (frame.width / 2) as u32;
    let wanted: u32 = if need > half {
        need
    } else {
        half
    };
    let area = center(
        frame,
        width_of_popup(frame.width, wanted),
        height_of_popup(frame.height, 5),
    );
    message_popup(
        area,
        title,
        theme.red,
        false,
        message,
        Style::new(),
        CONFIRM_HINT,
        theme,
    )
}

/// The question of the delete confirmation. A title of several lines takes one.
pub open spec fn delete_question(title: Seq<char>) -> Seq<char> {
    "Delete \u{201c}"@ + text::replaced(title, '\n', ' ') + "\u{201d} permanently?"@
}

/// The delete confirmation.
pub fn render_delete_popup(title: &str, frame: Rect, theme: &Theme) -> (r: Popup)
    requires
        frame.fits(),
    ensures
        shows(
            r,
            frame,
            confirm_width(frame.width, delete_question(title@)),
            popup_height(frame.height, 5),
            theme.red,
            PopupText {
                title: " Delete thread "@,
                message: delete_question(title@),
                message_style: style::plain(),
                hint: CONFIRM_HINT@,
            },
            *theme,
        ),
        !r.rounded,
{
    let name = text::replace_char(title, '\n', ' ');
    let message = text::concat3("Delete \u{201c}", name.as_str(), "\u{201d} permanently?");
    confirm_popup(" Delete thread ", message.as_str(), frame, theme)
}

/// The title of the stop/reset confirmation.
pub open spec fn stop_reset_title(action: StopResetAction) -> Seq<char> {
    match action {
        StopResetAction::Stop => " Stop request "@,
        StopResetAction::Reset => " Reset thread "@,
    }
}

/// The question of the stop/reset confirmation.
pub open spec fn stop_reset_question(action: StopResetAction) -> Seq<char> {
    match action {
        StopResetAction::Stop => "Stop the running request?"@,
        StopResetAction::Reset => "Reset this thread? (clears the dialog)"@,
    }
}

/// The stop/reset confirmation.
pub fn render_stop_reset_popup(action: StopResetAction, frame: Rect, theme: &Theme) -> (r: Popup)
    requires
        frame.fits(),
    ensures
        shows(
            r,
            frame,
            confirm_width(frame.width, stop_reset_question(action)),
            popup_height(frame.height, 5),
            theme.red,
            PopupText {
                title: stop_reset_title(action),
                message: stop_reset_question(action),
                message_style: style::plain(),
                hint: CONFIRM_HINT@,
            },
            *theme,
        ),
        !r.rounded,
{
    match action {
        StopResetAction::Stop => confirm_popup(
            " Stop request ",
            "Stop the running request?",
            frame,
            theme,
        ),
        StopResetAction::Reset => confirm_popup(
            " Reset thread ",
            "Reset this thread? (clears the dialog)",
            frame,
            theme,
        ),
    }
}

/// A popup never leaves a frame that can hold it.
pub proof fn law_popup_in_frame(frame: Rect, width: u16, height: u16)
    requires
        frame.fits(),
        width <= frame.width,
        height <= frame.height,
    ensures
        frame.x <= centered(frame, width, height).x,
        frame.y <= centered(frame, width, height).y,
        centered(frame, width, height).x + width <= frame.x + frame.width,
        centered(frame, width, height).y + height <= frame.y + frame.height,
{
}

/// The last line of a popup, its hint, always shows.
pub proof fn law_hint_shows(total: int, inner: Rect)
    requires
        0 < total <= 0x1_0000,
        inner.height > 0,
    ensures
        tail_scroll(total, inner) < total <= tail_scroll(total, inner) + inner.height,
{
}

/// Whether a line may be followed by `next`: with one blank and the first word of
/// `next` it would be longer than `room`.
pub open spec fn full_before(line: Seq<char>, next: Seq<char>, room: int) -> bool {
    forall|e: int|
        0 <= e <= next.len() && (e == next.len() || #[trigger] next[e] == ' ') ==> line.len() + 1
            + e > room
}

/// Whether the line is no longer than `room`, or one single word.
pub open spec fn fits_or_word(line: Seq<char>, room: int) -> bool {
    line.len() <= room || forall|i: int| 0 <= i < line.len() ==> #[trigger] line[i] != ' '
}

proof fn lemma_wrap_greedy(words: Seq<Seq<char>>, current: Seq<char>, room: int)
    requires
        width::printable_ascii(current),
        forall|i: int| 0 <= i < words.len() ==> width::printable_ascii(#[trigger] words[i]),
        forall|i: int| 0 <= i < words.len() ==> !(#[trigger] words[i]).contains(' '),
        fits_or_word(current, room),
    ensures
        ({
            let lines = wrap_words(words, current, room);
            &&& lines.len() >= 1
            &&& forall|k: int| 0 <= k < lines.len() ==> fits_or_word(#[trigger] lines[k], room)
            &&& forall|k: int|
                0 <= k < lines.len() - 1 ==> full_before(#[trigger] lines[k], lines[k + 1], room)
            &&& current.len() > 0 ==> current.len() <= lines[0].len() && lines[0].take(
                current.len() as int,
            ) == current && (lines[0].len() == current.len() || lines[0][current.len() as int]
                == ' ')
        }),
    decreases words.len(),
{
    let lines = wrap_words(words, current, room);
    if words.len() == 0 {
        assert(lines[0].take(current.len() as int) =~= current);
    } else {
        let word = words.first();
        let rest = words.drop_first();
        assert(width::printable_ascii(words[0]));
        assert(!words[0].contains(' '));
        assert forall|i: int| 0 <= i < rest.len() implies width::printable_ascii(
            #[trigger] rest[i],
        ) && !rest[i].contains(' ') by {
            assert(rest[i] == words[i + 1]);
        }
        if joined_columns(current, word) <= room {
            let next = joined(current, word);
            assert(width::printable_ascii(next));
            lemma_wrap_greedy(rest, next, room);
            if current.len() > 0 {
                let n = current.len() as int;
                assert(next.take(n) =~= current);
                assert(lines[0].take(n) =~= lines[0].take(next.len() as int).take(n));
                assert(lines[0][n] == lines[0].take(next.len() as int)[n]);
            }
        } else {
            assert(fits_or_word(word, room)) by {
                assert forall|i: int| 0 <= i < word.len() implies #[trigger] word[i] != ' ' by {
                    if word[i] == ' ' {
                        assert(word.contains(' '));
                    }
                }
            }
            lemma_wrap_greedy(rest, word, room);
            let below = wrap_words(rest, word, room);
            if current.len() > 0 {
                assert(lines =~= seq![current] + below);
                assert(full_before(current, below[0], room)) by {
                    assert forall|e: int|
                        0 <= e <= below[0].len() && (e == below[0].len() || #[trigger] below[0][e]
                            == ' ') implies current.len() + 1 + e > room by {
                        if e < word.len() {
                            assert(below[0].take(word.len() as int)[e] == word[e]);
                            assert(word.contains(word[e]));
                        }
                    }
                }
                assert forall|k: int| 0 <= k < lines.len() - 1 implies full_before(
                    #[trigger] lines[k],
                    lines[k + 1],
                    room,
                ) by {
                    assert(lines[k + 1] == below[k]);
                    if k > 0 {
                        assert(lines[k] == below[k - 1]);
                    }
                }
                assert forall|k: int| 0 <= k < lines.len() implies fits_or_word(
                    #[trigger] lines[k],
                    room,
                ) by {
                    if k > 0 {
                        assert(lines[k] == below[k - 1]);
                    }
                }
                assert(lines[0].take(current.len() as int) =~= current);
            } else {
                assert(lines =~= below);
            }
        }
    }
}

/// Popup text is wrapped greedily: a line of a paragraph ends only where the next
/// word would not fit behind it, and a line is longer than the popup only where it
/// is a single word.
pub proof fn law_popup_text_is_greedy(paragraph: Seq<char>, room: int)
    requires
        width::printable_ascii(paragraph),
        room >= 1,
    ensures
        ({
            let lines = wrap_words(text::split(paragraph, ' '), Seq::empty(), room);
            &&& lines.len() >= 1
            &&& forall|k: int| 0 <= k < lines.len() ==> fits_or_word(#[trigger] lines[k], room)
            &&& forall|k: int|
                0 <= k < lines.len() - 1 ==> full_before(#[trigger] lines[k], lines[k + 1], room)
        }),
{
    let words = text::split(paragraph, ' ');
    text::law_split_joins(paragraph, ' ');
    lemma_pieces_ascii(paragraph, ' ');
    lemma_wrap_greedy(words, Seq::empty(), room);
}

proof fn lemma_pieces_ascii(s: Seq<char>, sep: char)
    requires
        width::printable_ascii(s),
    ensures
        forall|i: int|
            0 <= i < text::split(s, sep).len() ==> width::printable_ascii(
                #[trigger] text::split(s, sep)[i],
            ),
    decreases s.len(),
{
    if s.len() > 0 {
        let front = s.drop_last();
        assert forall|i: int| 0 <= i < front.len() implies ' ' <= #[trigger] front[i] && front[i]
            <= '~' by {
            assert(s[i] == front[i]);
        }
        lemma_pieces_ascii(front, sep);
        text::lemma_split_nonempty(front, sep);
        let before = text::split(front, sep);
        let all = text::split(s, sep);
        assert(s.last() == s[s.len() - 1]);
        assert forall|i: int| 0 <= i < all.len() implies width::printable_ascii(
            #[trigger] all[i],
        ) by {
            if i < before.len() {
                assert(width::printable_ascii(before[i]));
            }
        }
    }
}

proof fn lemma_joined_front(first: Seq<char>, rest: Seq<Seq<char>>, sep: char)
    requires
        rest.len() > 0,
    ensures
        text::joined(seq![first] + rest, sep) == first.push(sep) + text::joined(rest, sep),
    decreases rest.len(),
{
    let all = seq![first] + rest;
    assert(all.last() == rest.last());
    if rest.len() == 1 {
        reveal_with_fuel(text::joined, 3);
        assert(all.drop_last() =~= seq![first]);
        assert(text::joined(all, sep) =~= first.push(sep) + rest[0]);
    } else {
        lemma_joined_front(first, rest.drop_last(), sep);
        assert(all.drop_last() =~= seq![first] + rest.drop_last());
        assert(text::joined(all, sep) =~= first.push(sep) + text::joined(rest, sep));
    }
}

proof fn lemma_words_fit(words: Seq<Seq<char>>, current: Seq<char>, room: int)
    requires
        width::printable_ascii(current),
        current.len() > 0,
        forall|i: int| 0 <= i < words.len() ==> width::printable_ascii(#[trigger] words[i]),
        words.len() > 0 ==> current.len() + 1 + text::joined(words, ' ').len() <= room,
    ensures
        words.len() == 0 ==> wrap_words(words, current, room) == seq![current],
        words.len() > 0 ==> wrap_words(words, current, room) == seq![
            current.push(' ') + text::joined(words, ' '),
        ],
    decreases words.len(),
{
    if words.len() > 0 {
        let word = words.first();
        let rest = words.drop_first();
        let next = joined(current, word);
        assert(width::printable_ascii(words[0]));
        assert(words =~= seq![word] + rest);
        assert forall|i: int| 0 <= i < rest.len() implies width::printable_ascii(
            #[trigger] rest[i],
        ) by {
            assert(rest[i] == words[i + 1]);
        }
        assert(width::printable_ascii(next));
        if rest.len() > 0 {
            lemma_joined_front(word, rest, ' ');
            lemma_words_fit(rest, next, room);
            assert(next.push(' ') + text::joined(rest, ' ') =~= current.push(' ')
                + text::joined(words, ' '));
        } else {
            lemma_words_fit(rest, next, room);
            assert(text::joined(words, ' ') == word);
        }
    }
}

/// Text without line breaks that fits is one line, letter by letter.
pub proof fn law_fitting_popup_text_is_one_line(s: Seq<char>, max_width: usize)
    requires
        width::printable_ascii(s),
        0 < s.len() <= max_width,
        s[0] != ' ',
    ensures
        wrapped(s, max_width) == seq![s],
{
    let words = text::split(s, ' ');
    text::law_split_joins(s, ' ');
    lemma_pieces_ascii(s, ' ');
    assert(!s.contains('\n')) by {
        if s.contains('\n') {
            let i = choose|i: int| 0 <= i < s.len() && s[i] == '\n';
            assert(' ' <= s[i]);
        }
    }
    text::law_split_whole(s, '\n');
    let rest = words.drop_first();
    assert(words =~= seq![words[0]] + rest);
    if rest.len() > 0 {
        lemma_joined_front(words[0], rest, ' ');
        if words[0].len() == 0 {
            assert(s[0] == (words[0].push(' ') + text::joined(rest, ' '))[0]);
        }
    } else {
        assert(text::joined(words, ' ') == words[0]);
    }
    assert(width::printable_ascii(words[0]));
    assert forall|i: int| 0 <= i < rest.len() implies width::printable_ascii(
        #[trigger] rest[i],
    ) by {
        assert(rest[i] == words[i + 1]);
    }
    lemma_words_fit(rest, words[0], max_width as int);
    reveal_with_fuel(wrap_paragraphs, 2);
    assert(seq![s].drop_first() =~= Seq::empty());
    assert(wrapped(s, max_width) =~= seq![s]);
}

/// Each paragraph of a text begins a new line: the lines of a text are those of
/// its paragraphs, one behind the other.
pub proof fn law_paragraphs_wrap_apart(first: Seq<char>, rest: Seq<Seq<char>>, room: int)
    ensures
        wrap_paragraphs(seq![first] + rest, room) == wrap_paragraphs(seq![first], room)
            + wrap_paragraphs(rest, room),
        wrap_paragraphs(seq![first], room) == wrap_words(
            text::split(first, ' '),
            Seq::empty(),
            room,
        ),
{
    reveal_with_fuel(wrap_paragraphs, 3);
    assert((seq![first] + rest).drop_first() =~= rest);
    assert(seq![first].drop_first() =~= Seq::empty());
    let own = wrap_words(text::split(first, ' '), Seq::empty(), room);
    assert(own + Seq::<Seq<char>>::empty() =~= own);
}

/// A popup stands in the middle of its frame: what is left over on both sides
/// differs by one cell at most.
pub proof fn law_popup_is_centered(frame: Rect, width: u16, height: u16)
    requires
        frame.fits(),
        width <= frame.width,
        height <= frame.height,
    ensures
        ({
            let p = centered(frame, width, height);
            let left = p.x - frame.x;
            let right = frame.x + frame.width - (p.x + p.width);
            let above = p.y - frame.y;
            let below = frame.y + frame.height - (p.y + p.height);
            &&& p.width == width && p.height == height
            &&& 0 <= left <= right <= left + 1
            &&& 0 <= above <= below <= above + 1
        }),
{
}

/// A popup is as wide and as high as it needs, within the frame's margins and its
/// own least size.
pub proof fn law_popup_size(frame_width: u16, frame_height: u16, wanted: int)
    requires
        frame_width >= 24,
        frame_height >= 5,
        0 <= wanted,
    ensures
        20 <= wanted <= frame_width - 4 ==> popup_width(frame_width, wanted) == wanted,
        wanted > frame_width - 4 ==> popup_width(frame_width, wanted) == frame_width - 4,
        wanted < 20 ==> popup_width(frame_width, wanted) == 20,
        3 <= wanted <= frame_height - 2 ==> popup_height(frame_height, wanted) == wanted,
        wanted > frame_height - 2 ==> popup_height(frame_height, wanted) == frame_height - 2,
        wanted < 3 ==> popup_height(frame_height, wanted) == 3,
{
}

/// A popup shows its title, its message and, on the last line, its hint.
pub proof fn law_popup_says(
    popup: Popup,
    frame: Rect,
    width: u16,
    height: u16,
    border: Color,
    said: PopupText,
    theme: Theme,
)
    requires
        shows(popup, frame, width, height, border, said, theme),
    ensures
        popup.title@.spans.len() == 1,
        popup.title@.spans[0].content == said.title,
        style::line_views(popup.lines@).last().spans.len() == 1,
        style::line_views(popup.lines@).last().spans[0].content == said.hint,
        style::line_views(popup.lines@).len() == wrapped(
            said.message,
            popup.inner.width as usize,
        ).len() + 1,
        forall|i: int|
            0 <= i < wrapped(said.message, popup.inner.width as usize).len()
                ==> #[trigger] style::line_views(popup.lines@)[i].text() == wrapped(
                said.message,
                popup.inner.width as usize,
            )[i],
{
    reveal_with_fuel(style::spans_text, 2);
    let all = wrapped(said.message, popup.inner.width as usize);
    assert forall|i: int| 0 <= i < all.len() implies #[trigger] style::line_views(
        popup.lines@,
    )[i].text() == all[i] by {
        let l = text_line(all[i], said.message_style);
        assert(style::line_views(popup.lines@)[i] == l);
        if all[i].len() == 0 {
            assert(all[i] =~= Seq::empty());
        } else {
            assert(l.spans.drop_last() =~= Seq::empty());
            assert(l.text() =~= all[i]);
        }
    }
}

/// The questions of the popups say what they would do and to what.
pub proof fn law_questions_read(title: Seq<char>)
    ensures
        delete_question(title) == "Delete \u{201c}"@ + Seq::new(
            title.len(),
            |i: int|
                if title[i] == '\n' {
                    ' '
                } else {
                    title[i]
                },
        ) + "\u{201d} permanently?"@,
        stop_reset_title(StopResetAction::Stop) == " Stop request "@,
        stop_reset_title(StopResetAction::Reset) == " Reset thread "@,
        stop_reset_question(StopResetAction::Stop) == "Stop the running request?"@,
        stop_reset_question(StopResetAction::Reset) == "Reset this thread? (clears the dialog)"@,
{
    assert(text::replaced(title, '\n', ' ') =~= Seq::new(
        title.len(),
        |i: int|
            if title[i] == '\n' {
                ' '
            } else {
                title[i]
            },
    ));
}

/// An error's popup is wide enough for its message and its hint side by side, as
/// far as the frame allows.
pub proof fn law_error_popup_has_room(frame_width: u16, message: Seq<char>)
    requires
        width::columns(message) + width::columns(popup::HINT@) + 6 <= frame_width - 4,
        40 <= frame_width - 4,
    ensures
        error_width(frame_width, message) >= width::columns(message) + width::columns(popup::HINT@)
            + 6,
        error_width(frame_width, message) >= 40,
        error_width(frame_width, message) <= frame_width - 4,
{
}

/// So is the one of a question, which takes half the frame at least.
pub proof fn law_question_has_room(frame_width: u16, message: Seq<char>)
    requires
        width::columns(message) + width::columns(CONFIRM_HINT@) + 6 <= frame_width - 4,
        24 <= frame_width,
    ensures
        confirm_width(frame_width, message) >= width::columns(message) + width::columns(
            CONFIRM_HINT@,
        ) + 6,
        frame_width >= 40 ==> confirm_width(frame_width, message) >= frame_width / 2,
        confirm_width(frame_width, message) <= frame_width - 4,
{
}

/// Popup text that fits is one line, as it reads.
pub proof fn law_fitting_text_shows_whole(s: &str, max_width: usize, r: Vec<Line>)
    requires
        call_ensures(wrap_text, (s, max_width), r),
        width::printable_ascii(s@),
        0 < s@.len() <= max_width,
        s@[0] != ' ',
    ensures
        r@.len() == 1,
        r@[0]@.text() == s@,
{
    law_fitting_popup_text_is_one_line(s@, max_width);
    assert(style::line_views(r@).len() == r@.len());
    assert(style::line_views(r@)[0] == r@[0]@);
    reveal_with_fuel(style::spans_text, 2);
    assert(r@[0]@.spans.drop_last() =~= Seq::empty());
    assert(r@[0]@.text() =~= s@);
}

} // verus!
