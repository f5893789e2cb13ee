//! The transcript as display rows: wrapping, selection and scroll arithmetic.

use vstd::prelude::*;
use crate::app::{ChatRowMeta, ChatSelection};
use crate::style::{Line, Modifier, Span};
use crate::wrap::{flatten, wrap_line_rows_indexed, wrapped_row_of_char, Cell};
use crate::{app, style, wrap};

verus! {

/// The characters of a list of cells.
pub open spec fn cell_chars(cells: Seq<Cell>) -> Seq<char> {
    Seq::new(cells.len(), |i: int| cells[i].0)
}

/// Grouping cells into runs keeps their characters.
proof fn lemma_runs_text(cells: Seq<Cell>)
    ensures
        style::spans_text(wrap::runs(cells)) == cell_chars(cells),
    decreases cells.len(),
{
    if cells.len() == 0 {
        assert(cell_chars(cells) =~= Seq::empty());
    } else {
        let before = wrap::runs(cells.drop_last());
        let after = wrap::runs(cells);
        let (ch, st) = cells.last();
        lemma_runs_text(cells.drop_last());
        assert(cell_chars(cells) =~= cell_chars(cells.drop_last()).push(ch));
        if before.len() > 0 && before.last().style == st {
            assert(after.drop_last() =~= before.drop_last());
            assert(style::spans_text(after) =~= style::spans_text(before).push(ch));
        } else {
            assert(after.drop_last() =~= before);
            assert(style::spans_text(after) =~= style::spans_text(before).push(ch));
        }
    }
}

/// The cells of a line carry its text.
pub proof fn lemma_cells_text(spans: Seq<style::SpanView>, under: style::Style)
    ensures
        cell_chars(wrap::spans_cells(spans, under)) == style::spans_text(spans),
    decreases spans.len(),
{
    if spans.len() == 0 {
        assert(cell_chars(wrap::spans_cells(spans, under)) =~= Seq::empty());
    } else {
        lemma_cells_text(spans.drop_last(), under);
        assert(cell_chars(wrap::spans_cells(spans, under)) =~= cell_chars(
            wrap::spans_cells(spans.drop_last(), under),
        ) + spans.last().content);
    }
}

/// The text of a display row is the part of its line that its range names.
pub proof fn law_row_text(line: style::LineView, max_width: usize, k: int)
    requires
        0 <= k < wrap::line_rows(line, max_width).len(),
    ensures
        wrap::line_rows(line, max_width)[k].text() == line.text().subrange(
            wrap::line_ranges(line, max_width)[k].0,
            wrap::line_ranges(line, max_width)[k].1,
        ),
{
    let flat = wrap::line_cells(line);
    let (from, to) = wrap::line_ranges(line, max_width)[k];
    lemma_cells_text(line.spans, line.style);
    lemma_runs_text(flat.subrange(from, to));
    if flat.len() > 0 {
        wrap::law_rows(flat, wrap::row_width(max_width));
    }
    assert(cell_chars(flat.subrange(from, to)) =~= cell_chars(flat).subrange(from, to));
}

/// The display rows of a list of lines.
pub open spec fn all_rows(lines: Seq<style::LineView>, max_width: usize) -> Seq<style::LineView>
    decreases lines.len(),
{
    if lines.len() == 0 {
        Seq::empty()
    } else {
        all_rows(lines.drop_last(), max_width) + wrap::line_rows(lines.last(), max_width)
    }
}

/// For every line, the index of its first display row.
pub open spec fn first_rows(lines: Seq<style::LineView>, max_width: usize) -> Seq<int> {
    Seq::new(lines.len(), |i: int| all_rows(lines.take(i), max_width).len() as int)
}

/// Where the display rows of one line come from.
pub open spec fn line_meta(line: style::LineView, logical: int, max_width: usize) -> Seq<
    app::ChatRowMetaView,
> {
    let rows = wrap::line_ranges(line, max_width);
    Seq::new(
        rows.len(),
        |k: int|
            app::ChatRowMetaView {
                logical,
                start: rows[k].0,
                end: rows[k].1,
                text: line.text().subrange(rows[k].0, rows[k].1),
            },
    )
}

/// Where the display rows of a list of lines come from.
pub open spec fn all_meta(lines: Seq<style::LineView>, max_width: usize) -> Seq<
    app::ChatRowMetaView,
>
    decreases lines.len(),
{
    if lines.len() == 0 {
        Seq::empty()
    } else {
        all_meta(lines.drop_last(), max_width) + line_meta(
            lines.last(),
            lines.len() - 1,
            max_width,
        )
    }
}

/// Indices over machine integers, as integers.
pub open spec fn ints(v: Seq<usize>) -> Seq<int> {
    Seq::new(v.len(), |i: int| v[i] as int)
}

/// Expands every line into the display rows that it takes at `max_width`
/// columns. Returns the rows, the index of each line's first row, and where
/// each row comes from.
pub fn wrap_message_rows_full(lines: &Vec<Line>, max_width: usize) -> (r: (
    Vec<Line>,
    Vec<usize>,
    Vec<ChatRowMeta>,
))
    ensures
        style::line_views(r.0@) == all_rows(style::line_views(lines@), max_width),
        ints(r.1@) == first_rows(style::line_views(lines@), max_width),
        app::meta_views(r.2@) == all_meta(style::line_views(lines@), max_width),
{
    let ghost views = style::line_views(lines@);
    let mut rows: Vec<Line> = Vec::new();
    let mut first_row_of: Vec<usize> = Vec::new();
    let mut meta: Vec<ChatRowMeta> = Vec::new();
    let mut i: usize = 0;
    proof {
        assert(views.take(0) =~= Seq::empty());
        assert(style::line_views(rows@) =~= Seq::empty());
        assert(app::meta_views(meta@) =~= Seq::empty());
    }
    while i < lines.len()
        invariant
            i <= lines@.len(),
            views == style::line_views(lines@),
            style::line_views(rows@) == all_rows(views.take(i as int), max_width),
            ints(first_row_of@) == first_rows(views, max_width).take(i as int),
            app::meta_views(meta@) == all_meta(views.take(i as int), max_width),
        decreases lines@.len() - i,
    {
        let ghost earlier = ints(first_row_of@);
        first_row_of.push(rows.len());
        let (mut line_rows, found) = wrap_line_rows_indexed(&lines[i], max_width);
        let ghost view = lines@[i as int]@;
        let ghost goal = line_meta(view, i as int, max_width);
        let ghost before = app::meta_views(meta@);
        proof {
            assert(view == views[i as int]);
            assert(views.take(i + 1).drop_last() =~= views.take(i as int));
            assert(views.take(i + 1).last() == view);
            assert(style::line_views(rows@).len() == rows@.len());
            assert(ints(first_row_of@) =~= earlier.push(rows@.len() as int));
            assert(first_rows(views, max_width).take(i + 1) =~= earlier.push(
                first_rows(views, max_width)[i as int],
            ));
            assert(before =~= before + goal.take(0));
        }
        let mut k: usize = 0;
        while k < line_rows.len()
            invariant
                k <= line_rows@.len(),
                line_rows@.len() == found@.len(),
                style::line_views(line_rows@) == wrap::line_rows(view, max_width),
                wrap::ranges(found@) == wrap::line_ranges(view, max_width),
                goal == line_meta(view, i as int, max_width),
                app::meta_views(meta@) == before + goal.take(k as int),
            decreases line_rows@.len() - k,
        {
            let (start, end) = found[k];
            let text = line_rows[k].plain_text();
            proof {
                law_row_text(view, max_width, k as int);
                assert(style::line_views(line_rows@)[k as int] == line_rows@[k as int]@);
                assert(wrap::ranges(found@)[k as int] == (start as int, end as int));
            }
            let ghost old_meta = meta@;
            meta.push(ChatRowMeta { logical: i, start, end, text });
            k += 1;
            assert(app::meta_views(meta@) =~= app::meta_views(old_meta).push(goal[k - 1]));
            assert(before + goal.take(k as int) =~= (before + goal.take(k - 1)).push(
                goal[k - 1],
            ));
        }
        assert(goal.take(k as int) =~= goal);
        proof {
            broadcast use style::line_views_add;
            assert(style::line_views(rows@ + line_rows@) == all_rows(
                views.take(i + 1),
                max_width,
            ));
        }
        rows.append(&mut line_rows);
        i += 1;
    }
    assert(views.take(i as int) =~= views);
    assert(first_rows(views, max_width).take(i as int) =~= first_rows(views, max_width));
    (rows, first_row_of, meta)
}

/// Expands every line into its display rows, and gives each line's first row.
pub fn wrap_message_rows_indexed(lines: &Vec<Line>, max_width: usize) -> (r: (
    Vec<Line>,
    Vec<usize>,
))
    ensures
        style::line_views(r.0@) == all_rows(style::line_views(lines@), max_width),
        ints(r.1@) == first_rows(style::line_views(lines@), max_width),
{
    let (rows, first_row_of, _) = wrap_message_rows_full(lines, max_width);
    (rows, first_row_of)
}

/// Expands every line into the display rows that it takes at `max_width`
/// columns.
pub fn wrap_message_rows(lines: &Vec<Line>, max_width: usize) -> (r: Vec<Line>)
    ensures
        style::line_views(r@) == all_rows(style::line_views(lines@), max_width),
{
    wrap_message_rows_indexed(lines, max_width).0
}

/// Hit-testing and painting agree: there is one record per display row, and it
/// holds that row's text.
pub proof fn law_meta_matches_rows(lines: Seq<style::LineView>, max_width: usize)
    ensures
        all_meta(lines, max_width).len() == all_rows(lines, max_width).len(),
        forall|r: int|
            0 <= r < all_rows(lines, max_width).len() ==> (#[trigger] all_meta(
                lines,
                max_width,
            )[r]).text == all_rows(lines, max_width)[r].text(),
    decreases lines.len(),
{
    if lines.len() > 0 {
        law_meta_matches_rows(lines.drop_last(), max_width);
        let before = all_rows(lines.drop_last(), max_width);
        assert forall|r: int| 0 <= r < all_rows(lines, max_width).len() implies (
        #[trigger] all_meta(lines, max_width)[r]).text == all_rows(lines, max_width)[r].text() by {
            if r >= before.len() {
                law_row_text(lines.last(), max_width, r - before.len());
            } else {
                assert(all_meta(lines, max_width)[r] == all_meta(lines.drop_last(), max_width)[r]);
            }
        }
    }
}

/// The row that [`wrap_message_rows_indexed`] gives for a line is the first one
/// that belongs to it, and it shows the line from its beginning.
pub proof fn law_first_row(lines: Seq<style::LineView>, max_width: usize, i: int)
    requires
        0 <= i < lines.len(),
    ensures
        0 <= first_rows(lines, max_width)[i] < all_rows(lines, max_width).len(),
        all_meta(lines, max_width)[first_rows(lines, max_width)[i]].logical == i,
        first_rows(lines, max_width)[i] > 0 ==> all_meta(lines, max_width)[first_rows(
            lines,
            max_width,
        )[i] - 1].logical == i - 1,
    decreases lines.len(),
{
    let shorter = lines.drop_last();
    law_meta_matches_rows(shorter, max_width);
    law_meta_matches_rows(lines, max_width);
    if i < shorter.len() {
        law_first_row(shorter, max_width, i);
        assert(shorter.take(i) =~= lines.take(i));
    } else {
        assert(lines.take(i) =~= shorter);
        let at = all_rows(shorter, max_width).len() as int;
        lemma_rows_of_line_exist(lines.last(), max_width);
        assert(all_meta(lines, max_width)[at] == line_meta(lines.last(), i, max_width)[0]);
        if at > 0 {
            if shorter.len() > 0 {
                lemma_rows_of_line_exist(shorter.last(), max_width);
                let n = wrap::line_ranges(shorter.last(), max_width).len() as int;
                assert(all_meta(lines, max_width)[at - 1] == all_meta(shorter, max_width)[at - 1]);
                assert(all_meta(shorter, max_width)[at - 1] == line_meta(
                    shorter.last(),
                    i - 1,
                    max_width,
                )[n - 1]);
            }
        }
    }
}

proof fn lemma_rows_of_line_exist(line: style::LineView, max_width: usize)
    ensures
        wrap::line_ranges(line, max_width).len() >= 1,
{
    if wrap::line_cells(line).len() > 0 {
        wrap::law_rows(wrap::line_cells(line), wrap::row_width(max_width));
    }
}

/// `cells` with the cells from `start` to `end` reversed.
pub open spec fn reversed_cells(cells: Seq<Cell>, start: int, end: int) -> Seq<Cell> {
    Seq::new(
        cells.len(),
        |i: int|
            if start <= i < end {
                (cells[i].0, cells[i].1.plus(Modifier::Reversed))
            } else {
                cells[i]
            },
    )
}

/// `row` with its characters from `start` to `end` reversed; a row without
/// such characters stays as it is.
pub open spec fn highlighted_row(row: style::LineView, start: int, end: int) -> style::LineView {
    if end <= start {
        row
    } else {
        style::LineView {
            spans: wrap::runs(reversed_cells(wrap::line_cells(row), start, end)),
            style: row.style,
        }
    }
}

pub open spec fn lesser(a: int, b: int) -> int {
    if a < b {
        a
    } else {
        b
    }
}

/// The selected characters of row `r`, of `len` characters, among `count` rows.
pub open spec fn selected_part(sel: ChatSelection, count: int, r: int, len: int) -> (int, int) {
    let (lo, hi) = sel.ends();
    let lo_row = lesser(lo.row as int, count - 1);
    let hi_row = lesser(hi.row as int, count - 1);
    if lo_row <= r <= hi_row {
        (
            if r == lo_row {
                lesser(lo.col as int, len)
            } else {
                0
            },
            if r == hi_row {
                lesser(hi.col as int, len)
            } else {
                len
            },
        )
    } else {
        (0, 0)
    }
}

/// The display rows with the selection laid over them.
pub open spec fn highlighted(rows: Seq<style::LineView>, sel: ChatSelection) -> Seq<
    style::LineView,
> {
    Seq::new(
        rows.len(),
        |r: int|
            {
                let part = selected_part(
                    sel,
                    rows.len() as int,
                    r,
                    wrap::line_cells(rows[r]).len() as int,
                );
                highlighted_row(rows[r], part.0, part.1)
            },
    )
}

/// Lays the selection over the display rows: the characters between its ends
/// are reversed on top of their own style. Ends behind the content are brought
/// back to it.
pub fn apply_selection_highlight(rows: &mut Vec<Line>, sel: &ChatSelection)
    ensures
        style::line_views(final(rows)@) == highlighted(style::line_views(old(rows)@), *sel),
{
    let (lo, hi) = sel.ordered();
    if rows.len() == 0 {
        assert(style::line_views(rows@) =~= highlighted(style::line_views(rows@), *sel));
        return ;
    }
    let ghost views = style::line_views(rows@);
    let ghost goal = highlighted(views, *sel);
    let last = rows.len() - 1;
    let lo_row: usize = if lo.row < last {
        lo.row
    } else {
        last
    };
    let hi_row: usize = if hi.row < last {
        hi.row
    } else {
        last
    };
    let mut r: usize = lo_row;
    proof {
        assert forall|i: int| 0 <= i < lo_row implies #[trigger] goal[i] == views[i] by {}
    }
    while r <= hi_row
        invariant
            rows@.len() == views.len(),
            rows@.len() == last + 1,
            last < usize::MAX,
            goal == highlighted(views, *sel),
            (lo, hi) == sel.ends(),
            lo_row as int == lesser(lo.row as int, last as int),
            hi_row as int == lesser(hi.row as int, last as int),
            lo_row <= r <= hi_row + 1,
            forall|i: int| 0 <= i < r ==> (#[trigger] rows@[i])@ == goal[i],
            forall|i: int| r <= i < rows@.len() ==> (#[trigger] rows@[i])@ == views[i],
        decreases hi_row + 1 - r,
    {
        let flat = flatten(&rows[r]);
        let len = flat.len();
        let start: usize = if r == lo_row {
            if lo.col < len {
                lo.col
            } else {
                len
            }
        } else {
            0
        };
        let end: usize = if r == hi_row {
            if hi.col < len {
                hi.col
            } else {
                len
            }
        } else {
            len
        };
        assert(selected_part(*sel, views.len() as int, r as int, len as int) == (
            start as int,
            end as int,
        ));
        if start < end {
            let marked = reverse_cells(&flat, start, end);
            let spans = wrap::build_runs(&marked, 0, marked.len());
            assert(marked@.subrange(0, marked@.len() as int) =~= marked@);
            let line = Line { spans, style: rows[r].style };
            rows.set(r, line);
        }
        r += 1;
    }
    proof {
        assert forall|i: int| r <= i < rows@.len() implies #[trigger] goal[i] == views[i] by {}
        assert(style::line_views(rows@) =~= goal);
    }
}

/// `flat` with the cells from `start` to `end` reversed.
fn reverse_cells(flat: &Vec<Cell>, start: usize, end: usize) -> (r: Vec<Cell>)
    ensures
        r@ == reversed_cells(flat@, start as int, end as int),
{
    let mut out: Vec<Cell> = Vec::new();
    let mut i: usize = 0;
    while i < flat.len()
        invariant
            i <= flat@.len(),
            out@ == reversed_cells(flat@, start as int, end as int).take(i as int),
        decreases flat@.len() - i,
    {
        let (ch, st) = flat[i];
        if start <= i && i < end {
            out.push((ch, st.add_modifier(Modifier::Reversed)));
        } else {
            out.push((ch, st));
        }
        i += 1;
        assert(out@ =~= reversed_cells(flat@, start as int, end as int).take(i as int));
    }
    out
}

/// The selection changes no text.
pub proof fn law_highlight_keeps_text(rows: Seq<style::LineView>, sel: ChatSelection, r: int)
    requires
        0 <= r < rows.len(),
    ensures
        highlighted(rows, sel).len() == rows.len(),
        highlighted(rows, sel)[r].text() == rows[r].text(),
{
    let cells = wrap::line_cells(rows[r]);
    let part = selected_part(sel, rows.len() as int, r, cells.len() as int);
    lemma_cells_text(rows[r].spans, rows[r].style);
    lemma_runs_text(reversed_cells(cells, part.0, part.1));
    assert(cell_chars(reversed_cells(cells, part.0, part.1)) =~= cell_chars(cells));
}

/// A row outside the selection stays as it is.
pub proof fn law_highlight_outside(rows: Seq<style::LineView>, sel: ChatSelection, r: int)
    requires
        0 <= r < rows.len(),
        r < sel.ends().0.row || r > sel.ends().1.row,
        sel.ends().0.row < rows.len(),
    ensures
        highlighted(rows, sel)[r] == rows[r],
{
}

/// The rows that a view of `visible` rows leaves to scroll over.
pub open spec fn max_scroll(total: int, visible: u16) -> int {
    let shown: int = if visible == 0 {
        1
    } else {
        visible as int
    };
    if total < shown {
        0
    } else {
        total - shown
    }
}

/// The rows hidden above the view: `scroll` counts up from the bottom.
pub open spec fn hidden_rows(scroll: u16, at_bottom: bool, total: int, visible: u16) -> int {
    if at_bottom {
        max_scroll(total, visible)
    } else {
        max_scroll(total, visible) - lesser(scroll as int, max_scroll(total, visible))
    }
}

/// How many rows are hidden above a view of `visible` rows that is scrolled up
/// by `scroll` rows from the bottom.
pub fn scroll_skip(scroll: u16, at_bottom: bool, total: usize, visible: u16) -> (r: usize)
    ensures
        r as int == hidden_rows(scroll, at_bottom, total as int, visible),
{
    let shown: usize = if visible == 0 {
        1
    } else {
        visible as usize
    };
    let most = total.saturating_sub(shown);
    if at_bottom {
        return most;
    }
    let scrolled: usize = if (scroll as usize) < most {
        scroll as usize
    } else {
        most
    };
    most - scrolled
}

/// Rows kept between the top edge and a row that is jumped to.
pub const SEARCH_JUMP_PADDING: usize = 1;

/// The rows hidden above the view after a jump to `target`.
pub open spec fn jump_skip(target: int, total: int, visible: u16) -> int {
    lesser(
        if target < SEARCH_JUMP_PADDING {
            0
        } else {
            target - SEARCH_JUMP_PADDING
        },
        max_scroll(total, visible),
    )
}

/// The scroll value that puts `target_row` near the top of the view. The
/// value is kept in 16 bits.
pub fn scroll_for_search_jump(target_row: usize, total: usize, visible: u16) -> (r: u16)
    ensures
        r as int == (max_scroll(total as int, visible) - jump_skip(
            target_row as int,
            total as int,
            visible,
        )) % 0x1_0000,
{
    let shown: usize = if visible == 0 {
        1
    } else {
        visible as usize
    };
    let most = total.saturating_sub(shown);
    let wanted = target_row.saturating_sub(SEARCH_JUMP_PADDING);
    let skip: usize = if wanted < most {
        wanted
    } else {
        most
    };
    ((most - skip) % 0x1_0000) as u16
}

/// Scrolling undoes the jump arithmetic: with the scroll value of a jump the
/// view hides the rows that the jump asked for. Transcripts that leave more
/// than 65535 rows to scroll over are not covered: a scroll value has 16 bits.
pub proof fn law_jump_lands(target: int, total: int, visible: u16, scroll: u16)
    requires
        0 <= target,
        0 <= total,
        max_scroll(total, visible) <= u16::MAX,
        scroll as int == (max_scroll(total, visible) - jump_skip(target, total, visible))
            % 0x1_0000,
    ensures
        hidden_rows(scroll, false, total, visible) == jump_skip(target, total, visible),
{
    assert(0 <= max_scroll(total, visible) - jump_skip(target, total, visible) < 0x1_0000);
    vstd::arithmetic::div_mod::lemma_small_mod(
        (max_scroll(total, visible) - jump_skip(target, total, visible)) as nat,
        0x1_0000,
    );
}

/// A row that is jumped to is shown by a view of two rows or more.
pub proof fn law_jump_target_visible(target: int, total: int, visible: u16)
    requires
        0 <= target < total,
        visible >= 2,
    ensures
        jump_skip(target, total, visible) <= target < jump_skip(target, total, visible) + visible,
{
}

/// The view never scrolls past either end, and following the bottom is the
/// same as having scrolled by nothing.
pub proof fn law_scroll_bounds(scroll: u16, at_bottom: bool, total: int, visible: u16)
    requires
        0 <= total,
    ensures
        0 <= hidden_rows(scroll, at_bottom, total, visible) <= max_scroll(total, visible),
        hidden_rows(0, false, total, visible) == hidden_rows(scroll, true, total, visible),
{
}

/// The display row of a search hit: `line_index` counts the lines of the
/// message below its header line. `None` where the hit is stale.
pub open spec fn jump_row(
    msg_ranges: Seq<(int, int)>,
    first_row_of: Seq<int>,
    lines: Seq<style::LineView>,
    width: usize,
    message_index: int,
    line_index: int,
    char_offset: int,
) -> Option<int> {
    if message_index >= msg_ranges.len() {
        None
    } else {
        let logical = msg_ranges[message_index].0 + 1 + line_index;
        if logical >= msg_ranges[message_index].1 || logical >= first_row_of.len() {
            None
        } else {
            Some(
                first_row_of[logical] + wrap::row_holding(
                    wrap::line_ranges(lines[logical], width),
                    char_offset,
                ),
            )
        }
    }
}

/// Maps a search hit onto the display row that shows it. A row number that no
/// machine integer holds is cut to the largest one.
pub fn search_jump_wrapped_row(
    msg_ranges: &Vec<(usize, usize)>,
    first_row_of: &Vec<usize>,
    lines: &Vec<Line>,
    width: usize,
    message_index: usize,
    line_index: usize,
    char_offset: usize,
) -> (r: Option<usize>)
    requires
        first_row_of@.len() <= lines@.len(),
    ensures
        match jump_row(
            wrap::ranges(msg_ranges@),
            ints(first_row_of@),
            style::line_views(lines@),
            width,
            message_index as int,
            line_index as int,
            char_offset as int,
        ) {
            Some(row) => r == Some(lesser(row, usize::MAX as int) as usize),
            None => r is None,
        },
{
    if message_index >= msg_ranges.len() {
        return None;
    }
    let (start, end) = msg_ranges[message_index];
    assert(wrap::ranges(msg_ranges@)[message_index as int] == (start as int, end as int));
    if start >= end || line_index >= end - start - 1 {
        return None;
    }
    let logical = start + 1 + line_index;
    if logical >= first_row_of.len() {
        return None;
    }
    assert(style::line_views(lines@)[logical as int] == lines@[logical as int]@);
    let row = wrapped_row_of_char(&lines[logical], char_offset, width);
    Some(first_row_of[logical].saturating_add(row))
}

proof fn lemma_rows_of_prefix(lines: Seq<style::LineView>, max_width: usize, i: int)
    requires
        0 <= i <= lines.len(),
    ensures
        all_rows(lines.take(i), max_width).len() <= all_rows(lines, max_width).len(),
        all_rows(lines.take(i), max_width) == all_rows(lines, max_width).take(
            all_rows(lines.take(i), max_width).len() as int,
        ),
        all_meta(lines.take(i), max_width).len() == all_rows(lines.take(i), max_width).len(),
        all_meta(lines.take(i), max_width) == all_meta(lines, max_width).take(
            all_rows(lines.take(i), max_width).len() as int,
        ),
    decreases lines.len(),
{
    let part = lines.take(i);
    let n = all_rows(part, max_width).len() as int;
    law_meta_matches_rows(part, max_width);
    law_meta_matches_rows(lines, max_width);
    if i < lines.len() {
        let shorter = lines.drop_last();
        lemma_rows_of_prefix(shorter, max_width, i);
        law_meta_matches_rows(shorter, max_width);
        assert(shorter.take(i) =~= part);
        assert(all_rows(lines, max_width).take(n) =~= all_rows(shorter, max_width).take(n));
        assert(all_meta(lines, max_width).take(n) =~= all_meta(shorter, max_width).take(n));
    } else {
        assert(part =~= lines);
        assert(all_rows(lines, max_width).take(n) =~= all_rows(lines, max_width));
        assert(all_meta(lines, max_width).take(n) =~= all_meta(lines, max_width));
    }
}

/// The display rows of a transcript are those of its lines, line after line and
/// none left out: the rows of line `i` begin at its first row, and each knows its
/// line and the part of it that it shows.
pub proof fn law_rows_follow_lines(
    lines: Seq<style::LineView>,
    max_width: usize,
    i: int,
    k: int,
)
    requires
        0 <= i < lines.len(),
        0 <= k < wrap::line_rows(lines[i], max_width).len(),
    ensures
        ({
            let at = first_rows(lines, max_width)[i];
            let ranges = wrap::line_ranges(lines[i], max_width);
            &&& at + k < all_rows(lines, max_width).len()
            &&& all_rows(lines, max_width)[at + k] == wrap::line_rows(lines[i], max_width)[k]
            &&& all_meta(lines, max_width)[at + k].logical == i
            &&& all_meta(lines, max_width)[at + k].start == ranges[k].0
            &&& all_meta(lines, max_width)[at + k].end == ranges[k].1
            &&& all_meta(lines, max_width)[at + k].text == wrap::line_rows(
                lines[i],
                max_width,
            )[k].text()
            &&& i + 1 < lines.len() ==> first_rows(lines, max_width)[i + 1] == at
                + wrap::line_rows(lines[i], max_width).len()
            &&& i + 1 == lines.len() ==> all_rows(lines, max_width).len() == at
                + wrap::line_rows(lines[i], max_width).len()
            &&& first_rows(lines, max_width)[0] == 0
        }),
{
    let part = lines.take(i + 1);
    assert(part.drop_last() =~= lines.take(i));
    assert(part.last() == lines[i]);
    lemma_rows_of_prefix(lines, max_width, i + 1);
    lemma_rows_of_prefix(lines, max_width, i);
    law_meta_matches_rows(lines, max_width);
    law_meta_matches_rows(lines.take(i), max_width);
    let at = first_rows(lines, max_width)[i];
    let own = wrap::line_rows(lines[i], max_width);
    assert(all_rows(part, max_width)[at + k] == own[k]);
    assert(all_rows(lines, max_width)[at + k] == all_rows(part, max_width)[at + k]);
    assert(all_meta(part, max_width)[at + k] == line_meta(lines[i], i, max_width)[k]);
    assert(all_meta(lines, max_width)[at + k] == all_meta(part, max_width)[at + k]);
    law_row_text(lines[i], max_width, k);
    assert(lines.take(0) =~= Seq::empty());
    if i + 1 == lines.len() {
        assert(part =~= lines);
    }
}

/// A selection covers, row by row, what lies between its ends in reading order:
/// its first row from the first end on, its last row up to the last end, and the
/// rows between them whole.
pub proof fn law_selection_covers(sel: ChatSelection, count: int, r: int, len: int)
    requires
        0 <= r < count,
        0 <= len,
        sel.anchor.row < count,
        sel.head.row < count,
    ensures
        ({
            let (lo, hi) = sel.ends();
            let (from, to) = selected_part(sel, count, r, len);
            &&& lo.row < hi.row || (lo.row == hi.row && lo.col <= hi.col)
            &&& (lo, hi) == (sel.anchor, sel.head) || (lo, hi) == (sel.head, sel.anchor)
            &&& r < lo.row || hi.row < r ==> from >= to
            &&& lo.row < r < hi.row ==> from == 0 && to == len
            &&& r == lo.row && lo.col <= len ==> from == lo.col
            &&& r == hi.row && hi.col <= len ==> to == hi.col
            &&& r == lo.row && r < hi.row ==> to == len
            &&& r == hi.row && lo.row < r ==> from == 0
            &&& r == hi.row && hi.col > len ==> to == len
            &&& r == lo.row && lo.col > len ==> from == len
        }),
{
}

/// The selected cells of a row are shown reversed and no other; every character
/// and every other part of its style stays.
pub proof fn law_highlight_reverses_the_part(row: style::LineView, start: int, end: int, i: int)
    requires
        0 <= i < wrap::line_cells(row).len(),
        start < end,
    ensures
        ({
            let cells = wrap::line_cells(row);
            let shown = wrap::spans_cells(highlighted_row(row, start, end).spans, style::plain());
            &&& shown.len() == cells.len()
            &&& shown[i].0 == cells[i].0
            &&& start <= i < end ==> shown[i].1.add_modifier.reversed
            &&& !(start <= i < end) ==> shown[i].1 == style::plain().patched(cells[i].1)
            &&& shown[i].1.fg == cells[i].1.fg && shown[i].1.bg == cells[i].1.bg
            &&& shown[i].1.add_modifier.bold == cells[i].1.add_modifier.bold
        }),
        highlighted_row(row, end, start) == row,
{
    wrap::law_runs_keep_cells(reversed_cells(wrap::line_cells(row), start, end));
}

/// At the bottom the last row is the last one on screen, and nothing is hidden
/// where everything fits. Each row scrolled up shows one row more above, down to
/// the first.
pub proof fn law_scrolling(scroll: u16, total: int, visible: u16)
    requires
        0 <= total,
        visible >= 1,
    ensures
        total <= visible ==> hidden_rows(scroll, true, total, visible) == 0,
        total > visible ==> hidden_rows(scroll, true, total, visible) + visible == total,
        scroll <= total - visible ==> hidden_rows(scroll, false, total, visible) + visible + scroll
            == total,
        scroll >= total - visible ==> hidden_rows(scroll, false, total, visible) == 0,
{
}

/// A jump puts its target one row below the top of the view where the transcript
/// allows it.
pub proof fn law_jump_leaves_a_row_above(target: int, total: int, visible: u16)
    requires
        0 <= target < total,
    ensures
        target == 0 ==> jump_skip(target, total, visible) == 0,
        1 <= target <= max_scroll(total, visible) + 1 ==> jump_skip(target, total, visible)
            == target - 1,
        target > max_scroll(total, visible) + 1 ==> jump_skip(target, total, visible)
            == max_scroll(total, visible),
{
}

/// A hit of a message is found again in the transcript: the row of the jump
/// belongs to the hit's line, behind the message's header, and shows the hit's
/// character where any row does.
pub proof fn law_jump_row_shows_the_hit(
    msg_ranges: Seq<(int, int)>,
    lines: Seq<style::LineView>,
    width: usize,
    message_index: int,
    line_index: int,
    char_offset: int,
    k: int,
)
    requires
        0 <= message_index < msg_ranges.len(),
        0 <= line_index,
        0 <= msg_ranges[message_index].0,
        msg_ranges[message_index].0 + 1 + line_index < msg_ranges[message_index].1 <= lines.len(),
        ({
            let line = lines[msg_ranges[message_index].0 + 1 + line_index];
            &&& 0 <= k < wrap::line_ranges(line, width).len()
            &&& wrap::line_ranges(line, width)[k].0 <= char_offset < wrap::line_ranges(
                line,
                width,
            )[k].1
        }),
    ensures
        ({
            let found = jump_row(
                msg_ranges,
                first_rows(lines, width),
                lines,
                width,
                message_index,
                line_index,
                char_offset,
            );
            let row = all_meta(lines, width)[found->0];
            &&& found is Some
            &&& 0 <= found->0 < all_rows(lines, width).len()
            &&& row.logical == msg_ranges[message_index].0 + 1 + line_index
            &&& row.start <= char_offset < row.end
        }),
{
    let logical = msg_ranges[message_index].0 + 1 + line_index;
    let line = lines[logical];
    if wrap::line_cells(line).len() == 0 {
        assert(wrap::line_ranges(line, width) =~= seq![(0int, 0int)]);
    }
    wrap::law_row_of_shown_char(line, width, k, char_offset);
    law_rows_follow_lines(lines, width, logical, k);
    law_first_row(lines, width, logical);
}

/// The rows of a transcript are its lines' rows in order, each with the place that
/// it comes from.
pub proof fn law_transcript_rows(
    lines: &Vec<Line>,
    max_width: usize,
    r: (Vec<Line>, Vec<usize>, Vec<ChatRowMeta>),
    i: int,
    k: int,
)
    requires
        call_ensures(wrap_message_rows_full, (lines, max_width), r),
        0 <= i < lines@.len(),
        0 <= k < wrap::line_rows(lines@[i]@, max_width).len(),
    ensures
        r.1@[i] + k < r.0@.len(),
        r.0@.len() == r.2@.len(),
        r.0@[r.1@[i] + k]@ == wrap::line_rows(lines@[i]@, max_width)[k],
        r.2@[r.1@[i] + k]@.logical == i,
        r.2@[r.1@[i] + k]@.text == r.0@[r.1@[i] + k]@.text(),
{
    let views = style::line_views(lines@);
    assert(views[i] == lines@[i]@);
    law_rows_follow_lines(views, max_width, i, k);
    law_meta_matches_rows(views, max_width);
    assert(ints(r.1@).len() == r.1@.len());
    assert(first_rows(views, max_width).len() == views.len());
    let at = r.1@[i] as int;
    assert(ints(r.1@)[i] == at);
    assert(style::line_views(r.0@).len() == r.0@.len());
    assert(app::meta_views(r.2@).len() == r.2@.len());
    assert(style::line_views(r.0@)[at + k] == r.0@[at + k]@);
    assert(app::meta_views(r.2@)[at + k] == r.2@[at + k]@);
}

/// The highlight changes no letter of any row.
pub proof fn law_highlight_loses_no_letter(rows: &mut Vec<Line>, sel: &ChatSelection, r: int)
    requires
        call_ensures(apply_selection_highlight, (rows, sel), ()),
        0 <= r < old(rows)@.len(),
    ensures
        final(rows)@.len() == old(rows)@.len(),
        final(rows)@[r]@.text() == old(rows)@[r]@.text(),
{
    let before = style::line_views(old(rows)@);
    let after = style::line_views(final(rows)@);
    law_highlight_keeps_text(before, *sel, r);
    assert(after.len() == final(rows)@.len());
    assert(before[r] == old(rows)@[r]@);
    assert(after[r] == final(rows)@[r]@);
}

} // verus!
