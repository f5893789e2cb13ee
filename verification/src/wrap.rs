//! Greedy word wrap of styled lines into display rows.
//!
//! A line is flattened into cells (a character with its effective style). The
//! wrap is stated on the cells as a list of half-open ranges, one per display
//! row; the rows themselves are the runs of equal style of each range.

use vstd::prelude::*;
use crate::style::{Line, Span, Style};
use crate::{style, width};

verus! {

/// A character with its effective style.
pub type Cell = (char, Style);

/// The columns of one cell.
pub open spec fn cell_columns(c: Cell) -> nat {
    width::char_columns_or(c.0, 0)
}

/// The columns of a run of cells.
pub open spec fn cells_columns(cells: Seq<Cell>) -> nat
    decreases cells.len(),
{
    if cells.len() == 0 {
        0
    } else {
        cells_columns(cells.drop_last()) + cell_columns(cells.last())
    }
}

/// The columns of `flat[from..to]`.
pub open spec fn range_columns(flat: Seq<Cell>, from: int, to: int) -> nat {
    cells_columns(flat.subrange(from, to))
}

/// The characters of `content`, each in `st`.
pub open spec fn styled_cells(content: Seq<char>, st: Style) -> Seq<Cell> {
    Seq::new(content.len(), |i: int| (content[i], st))
}

/// The cells of a list of spans over the line style `under`.
pub open spec fn spans_cells(spans: Seq<style::SpanView>, under: Style) -> Seq<Cell>
    decreases spans.len(),
{
    if spans.len() == 0 {
        Seq::empty()
    } else {
        spans_cells(spans.drop_last(), under) + styled_cells(
            spans.last().content,
            under.patched(spans.last().style),
        )
    }
}

/// The cells of a line: the line style lies under the style of each span.
pub open spec fn line_cells(line: style::LineView) -> Seq<Cell> {
    spans_cells(line.spans, line.style)
}

/// The runs of equal style of a list of cells.
pub open spec fn runs(cells: Seq<Cell>) -> Seq<style::SpanView>
    decreases cells.len(),
{
    if cells.len() == 0 {
        Seq::empty()
    } else {
        let before = runs(cells.drop_last());
        let (ch, st) = cells.last();
        if before.len() > 0 && before.last().style == st {
            before.drop_last().push(style::span(before.last().content.push(ch), st))
        } else {
            before.push(style::span(seq![ch], st))
        }
    }
}

/// The first index from `i` on that holds no space.
pub open spec fn spaces_end(flat: Seq<Cell>, i: int) -> int
    decreases flat.len() - i,
{
    if 0 <= i < flat.len() && flat[i].0 == ' ' {
        spaces_end(flat, i + 1)
    } else {
        i
    }
}

/// The first index from `i` on that holds a space, or the end.
pub open spec fn word_end(flat: Seq<Cell>, i: int) -> int
    decreases flat.len() - i,
{
    if 0 <= i < flat.len() && flat[i].0 != ' ' {
        word_end(flat, i + 1)
    } else {
        i
    }
}

/// How many cells of `cells`, from `taken` on, still fit when `taken` cells
/// fill `used` of `room` columns. The first cell always counts.
pub open spec fn fitting_from(cells: Seq<Cell>, room: int, taken: int, used: int) -> int
    decreases cells.len() - taken,
{
    if 0 <= taken < cells.len() && (taken == 0 || used + cell_columns(cells[taken]) <= room) {
        fitting_from(cells, room, taken + 1, used + cell_columns(cells[taken]))
    } else {
        taken
    }
}

/// The longest prefix of `cells` that fits in `room` columns, and one cell at
/// least where there is one.
pub open spec fn fitting(cells: Seq<Cell>, room: int) -> int {
    fitting_from(cells, room, 0, 0)
}

/// What fits is part of the whole, and not nothing of something.
pub proof fn lemma_fitting_from(cells: Seq<Cell>, room: int, taken: int, used: int)
    requires
        0 <= taken <= cells.len(),
    ensures
        taken <= fitting_from(cells, room, taken, used) <= cells.len(),
        taken == 0 && cells.len() > 0 ==> fitting_from(cells, room, taken, used) >= 1,
    decreases cells.len() - taken,
{
    if taken < cells.len() && (taken == 0 || used + cell_columns(cells[taken]) <= room) {
        lemma_fitting_from(cells, room, taken + 1, used + cell_columns(cells[taken]));
    }
}

/// The rows that an overlong word `flat[pos..end]` fills, and where the part
/// of it that fits on a row of its own begins.
pub open spec fn word_rows(flat: Seq<Cell>, max_width: nat, pos: int, end: int) -> (
    Seq<(int, int)>,
    int,
)
    decreases end - pos,
    when 0 <= pos <= end <= flat.len()
    via word_rows_decreases
{
    if range_columns(flat, pos, end) <= max_width {
        (Seq::empty(), pos)
    } else {
        let taken = fitting(flat.subrange(pos, end), max_width as int);
        let (rows, last) = word_rows(flat, max_width, pos + taken, end);
        (seq![(pos, pos + taken)] + rows, last)
    }
}

#[via_fn]
proof fn word_rows_decreases(flat: Seq<Cell>, max_width: nat, pos: int, end: int) {
    lemma_fitting_from(flat.subrange(pos, end), max_width as int, 0, 0);
}

/// How many of `spaces` spaces at the end of a line are kept where `room`
/// columns are left: as many as fit.
pub open spec fn trailing_kept(room: int, spaces: int) -> int {
    if room <= 0 {
        0
    } else if room < spaces {
        room
    } else {
        spaces
    }
}

/// The rows of the line from the cell `at` on, where `flat[start..at]` is the
/// row being filled.
pub open spec fn rows_from(flat: Seq<Cell>, max_width: nat, start: int, at: int) -> Seq<(int, int)>
    decreases flat.len() - at,
    when 0 <= start <= at <= flat.len()
    via rows_from_decreases
{
    let flushed = if start < at {
        seq![(start, at)]
    } else {
        Seq::empty()
    };
    let word = spaces_end(flat, at);
    let end = word_end(flat, word);
    if at == flat.len() {
        flushed
    } else if word == flat.len() {
        seq![(start, at + trailing_kept(max_width - range_columns(flat, start, at), word - at))]
    } else if range_columns(flat, start, end) <= max_width {
        rows_from(flat, max_width, start, end)
    } else if range_columns(flat, word, end) > max_width {
        let (rows, last) = word_rows(flat, max_width, word, end);
        flushed + rows + rows_from(flat, max_width, last, end)
    } else {
        flushed + rows_from(flat, max_width, word, end)
    }
}

#[via_fn]
proof fn rows_from_decreases(flat: Seq<Cell>, max_width: nat, start: int, at: int) {
    lemma_spaces_end(flat, at);
    lemma_word_end(flat, spaces_end(flat, at));
    lemma_word_rows_bounds(flat, max_width, spaces_end(flat, at), word_end(
        flat,
        spaces_end(flat, at),
    ));
}

/// The ranges of the display rows of a line of cells at `max_width` columns.
pub open spec fn row_ranges(flat: Seq<Cell>, max_width: nat) -> Seq<(int, int)> {
    if flat.len() == 0 {
        seq![(0int, 0int)]
    } else {
        rows_from(flat, max_width, 0, 0)
    }
}

proof fn lemma_spaces_end(flat: Seq<Cell>, i: int)
    requires
        0 <= i <= flat.len(),
    ensures
        i <= spaces_end(flat, i) <= flat.len(),
        forall|k: int| i <= k < spaces_end(flat, i) ==> (#[trigger] flat[k]).0 == ' ',
        spaces_end(flat, i) < flat.len() ==> flat[spaces_end(flat, i)].0 != ' ',
    decreases flat.len() - i,
{
    if i < flat.len() && flat[i].0 == ' ' {
        lemma_spaces_end(flat, i + 1);
    }
}

proof fn lemma_word_end(flat: Seq<Cell>, i: int)
    requires
        0 <= i <= flat.len(),
    ensures
        i <= word_end(flat, i) <= flat.len(),
        i < flat.len() && flat[i].0 != ' ' ==> i < word_end(flat, i),
        forall|k: int| i <= k < word_end(flat, i) ==> (#[trigger] flat[k]).0 != ' ',
        word_end(flat, i) < flat.len() ==> flat[word_end(flat, i)].0 == ' ',
    decreases flat.len() - i,
{
    if i < flat.len() && flat[i].0 != ' ' {
        lemma_word_end(flat, i + 1);
    }
}

proof fn lemma_word_rows_bounds(flat: Seq<Cell>, max_width: nat, pos: int, end: int)
    requires
        0 <= pos <= end <= flat.len(),
    ensures
        pos <= word_rows(flat, max_width, pos, end).1 <= end,
    decreases end - pos,
{
    if range_columns(flat, pos, end) > max_width {
        lemma_fitting_from(flat.subrange(pos, end), max_width as int, 0, 0);
        let taken = fitting(flat.subrange(pos, end), max_width as int);
        lemma_word_rows_bounds(flat, max_width, pos + taken, end);
    }
}

/// The width of adjacent ranges adds up.
proof fn lemma_columns_add(flat: Seq<Cell>, a: int, b: int, c: int)
    requires
        0 <= a <= b <= c <= flat.len(),
    ensures
        range_columns(flat, a, c) == range_columns(flat, a, b) + range_columns(flat, b, c),
    decreases c - b,
{
    if b < c {
        lemma_columns_add(flat, a, b, c - 1);
        assert(flat.subrange(a, c).drop_last() =~= flat.subrange(a, c - 1));
        assert(flat.subrange(b, c).drop_last() =~= flat.subrange(b, c - 1));
    } else {
        assert(flat.subrange(b, c) =~= Seq::empty());
    }
}

/// The cells of `line`.
pub fn flatten(line: &Line) -> (r: Vec<Cell>)
    ensures
        r@ == line_cells(line@),
{
    let mut out: Vec<Cell> = Vec::new();
    let mut i: usize = 0;
    let ghost spans = line@.spans;
    assert(spans.take(0) =~= Seq::empty());
    while i < line.spans.len()
        invariant
            i <= line.spans@.len(),
            spans == line@.spans,
            out@ == spans_cells(spans.take(i as int), line.style),
        decreases line.spans@.len() - i,
    {
        let st = line.style.patch(line.spans[i].style);
        let chars = crate::text::to_chars(line.spans[i].content.as_str());
        let ghost before = out@;
        let mut j: usize = 0;
        while j < chars.len()
            invariant
                j <= chars@.len(),
                out@ == before + styled_cells(chars@, st).take(j as int),
            decreases chars@.len() - j,
        {
            out.push((chars[j], st));
            j += 1;
        }
        assert(styled_cells(chars@, st).take(j as int) =~= styled_cells(chars@, st));
        i += 1;
        assert(spans.take(i as int).drop_last() =~= spans.take(i - 1));
    }
    assert(spans.take(i as int) =~= spans);
    out
}

/// The columns of `flat[from..to]`.
fn columns_between(flat: &Vec<Cell>, from: usize, to: usize) -> (r: u128)
    requires
        from <= to <= flat@.len(),
    ensures
        r as nat == range_columns(flat@, from as int, to as int),
{
    let mut sum: u128 = 0;
    let mut i: usize = from;
    while i < to
        invariant
            from <= i <= to <= flat@.len(),
            sum as nat == range_columns(flat@, from as int, i as int),
            sum <= 3 * (i - from),
        decreases to - i,
    {
        sum += width::char_width_or_zero(flat[i].0) as u128;
        i += 1;
        assert(flat@.subrange(from as int, i as int).drop_last() =~= flat@.subrange(
            from as int,
            i - 1,
        ));
    }
    sum
}

/// How many cells of `flat[from..to]` fit in `room` columns; the first one
/// always counts.
fn fit(flat: &Vec<Cell>, from: usize, to: usize, room: u128) -> (r: usize)
    requires
        from <= to <= flat@.len(),
    ensures
        r as int == fitting(flat@.subrange(from as int, to as int), room as int),
        r <= to - from,
        from < to ==> r >= 1,
{
    let ghost cells = flat@.subrange(from as int, to as int);
    let mut taken: usize = 0;
    let mut used: u128 = 0;
    proof {
        lemma_fitting_from(cells, room as int, 0, 0);
    }
    while taken < to - from
        invariant
            from <= to <= flat@.len(),
            cells == flat@.subrange(from as int, to as int),
            0 <= taken <= to - from,
            used <= 3 * taken,
            fitting_from(cells, room as int, taken as int, used as int) == fitting(
                cells,
                room as int,
            ),
        decreases to - from - taken,
    {
        let w = width::char_width_or_zero(flat[from + taken].0) as u128;
        assert(cells[taken as int] == flat@[from + taken]);
        if used + w > room && taken > 0 {
            return taken;
        }
        used += w;
        taken += 1;
    }
    taken
}

/// The runs of equal style of `flat[from..to]`.
pub fn build_runs(flat: &Vec<Cell>, from: usize, to: usize) -> (r: Vec<Span>)
    requires
        from <= to <= flat@.len(),
    ensures
        style::span_views(r@) == runs(flat@.subrange(from as int, to as int)),
{
    let mut out: Vec<Span> = Vec::new();
    if from == to {
        assert(style::span_views(out@) =~= runs(flat@.subrange(from as int, to as int)));
        return out;
    }
    let mut run = String::new();
    let mut run_style = flat[from].1;
    run.push(flat[from].0);
    let mut i: usize = from + 1;
    proof {
        let first = flat@.subrange(from as int, i as int);
        assert(first.drop_last() =~= Seq::empty());
        assert(runs(first.drop_last()) =~= Seq::empty());
        assert(run@ =~= seq![flat@[from as int].0]);
        assert(runs(first) =~= style::span_views(out@).push(style::span(run@, run_style)));
    }
    while i < to
        invariant
            from < i <= to <= flat@.len(),
            runs(flat@.subrange(from as int, i as int)) == style::span_views(out@).push(
                style::span(run@, run_style),
            ),
        decreases to - i,
    {
        broadcast use style::span_views_push;

        let (ch, st) = flat[i];
        let ghost before = runs(flat@.subrange(from as int, i as int));
        proof {
            assert(flat@.subrange(from as int, i + 1).drop_last() =~= flat@.subrange(
                from as int,
                i as int,
            ));
            assert(before.drop_last() =~= style::span_views(out@));
        }
        if st == run_style {
            run.push(ch);
        } else {
            out.push(Span::styled(run, run_style));
            run = String::new();
            run.push(ch);
            run_style = st;
            assert(run@ =~= seq![ch]);
        }
        i += 1;
    }
    proof {
        broadcast use style::span_views_push;
    }
    out.push(Span::styled(run, run_style));
    out
}

/// A line in pieces of at most `width` columns, without regard to words; a glyph
/// that is wider stands alone.
pub open spec fn hard_wrapped(line: Seq<char>, width: int) -> Seq<Seq<char>>
    decreases line.len(),
{
    let cells = styled_cells(line, style::plain());
    let taken = fitting(cells, width);
    if taken >= line.len() {
        seq![line]
    } else {
        proof {
            lemma_fitting_from(cells, width, 0, 0);
        }
        seq![line.take(taken)] + hard_wrapped(line.skip(taken), width)
    }
}

/// The pieces of a line, put together, are the line.
pub proof fn law_hard_wrap_keeps_text(line: Seq<char>, width: int)
    ensures
        hard_wrapped(line, width).flatten() == line,
    decreases line.len(),
{
    let cells = styled_cells(line, style::plain());
    let taken = fitting(cells, width);
    let whole = hard_wrapped(line, width);
    lemma_fitting_from(cells, width, 0, 0);
    if taken >= line.len() {
        assert(whole.drop_first() =~= Seq::empty());
        assert(whole.drop_first().flatten() =~= Seq::empty());
        assert(whole.flatten() =~= line);
    } else {
        law_hard_wrap_keeps_text(line.skip(taken), width);
        assert(whole.drop_first() =~= hard_wrapped(line.skip(taken), width));
        assert(whole.flatten() =~= line.take(taken) + line.skip(taken));
    }
}

/// Cuts a line into pieces of at most `width` columns.
pub fn hard_wrap(line: &str, width: usize) -> (r: Vec<String>)
    ensures
        crate::text::texts(r@) == hard_wrapped(line@, width as int),
        r@.len() >= 1,
{
    broadcast use crate::text::texts_push;

    let chars = crate::text::to_chars(line);
    let mut flat: Vec<Cell> = Vec::new();
    let st = Style::new();
    let mut i: usize = 0;
    while i < chars.len()
        invariant
            i <= chars@.len(),
            flat@ == styled_cells(chars@, st).take(i as int),
        decreases chars@.len() - i,
    {
        flat.push((chars[i], st));
        i += 1;
    }
    assert(flat@ =~= styled_cells(line@, st));
    let len: usize = chars.len();
    let ghost goal = hard_wrapped(line@, width as int);
    let mut out: Vec<String> = Vec::new();
    let mut at: usize = 0;
    let mut taken: usize = fit(&flat, 0, len, width as u128);
    proof {
        assert(line@.skip(0) =~= line@);
        assert(flat@.subrange(0, len as int) =~= styled_cells(line@, st));
        assert(crate::text::texts(out@) + goal =~= goal);
    }
    while taken < len - at
        invariant
            st == style::plain(),
            len == chars@.len(),
            chars@ == line@,
            at + taken <= len,
            at < len ==> taken >= 1,
            flat@ == styled_cells(line@, st),
            taken as int == fitting(styled_cells(line@.skip(at as int), st), width as int),
            goal == crate::text::texts(out@) + hard_wrapped(line@.skip(at as int), width as int),
        decreases len - at,
    {
        broadcast use crate::text::texts_push;

        let ghost done = crate::text::texts(out@);
        let piece = crate::text::from_chars(&chars, at, at + taken);
        proof {
            let rest = line@.skip(at as int);
            assert(piece@ =~= rest.take(taken as int));
            assert(rest.skip(taken as int) =~= line@.skip(at + taken));
            let below = hard_wrapped(line@.skip(at + taken), width as int);
            assert(done + (seq![piece@] + below) =~= done.push(piece@) + below);
        }
        out.push(piece);
        at += taken;
        taken = fit(&flat, at, len, width as u128);
        assert(flat@.subrange(at as int, len as int) =~= styled_cells(line@.skip(at as int), st));
    }
    let last = crate::text::from_chars(&chars, at, len);
    proof {
        assert(last@ =~= line@.skip(at as int));
        assert(crate::text::texts(out@) + seq![last@] =~= crate::text::texts(out@).push(last@));
    }
    out.push(last);
    out
}

/// Ranges over machine integers, as ranges over the integers.
pub open spec fn ranges(v: Seq<(usize, usize)>) -> Seq<(int, int)> {
    Seq::new(v.len(), |i: int| (v[i].0 as int, v[i].1 as int))
}

/// A range more.
pub proof fn lemma_ranges_push(v: Seq<(usize, usize)>, a: usize, b: usize)
    ensures
        ranges(v.push((a, b))) == ranges(v).push((a as int, b as int)),
{
    assert(ranges(v.push((a, b))) =~= ranges(v).push((a as int, b as int)));
}

/// Pushes the rows of the overlong word `flat[pos..end]` and returns where its
/// last part begins.
fn push_word_rows(
    out: &mut Vec<(usize, usize)>,
    flat: &Vec<Cell>,
    max_width: usize,
    pos: usize,
    end: usize,
) -> (last: usize)
    requires
        pos <= end <= flat@.len(),
    ensures
        ranges(final(out)@) == ranges(old(out)@) + word_rows(
            flat@,
            max_width as nat,
            pos as int,
            end as int,
        ).0,
        last as int == word_rows(flat@, max_width as nat, pos as int, end as int).1,
        pos <= last <= end,
{
    let ghost whole = word_rows(flat@, max_width as nat, pos as int, end as int);
    let ghost before = ranges(out@);
    let mut p: usize = pos;
    assert(before + whole.0 =~= ranges(out@) + word_rows(
        flat@,
        max_width as nat,
        p as int,
        end as int,
    ).0);
    while columns_between(flat, p, end) > max_width as u128
        invariant
            pos <= p <= end <= flat@.len(),
            before + whole.0 == ranges(out@) + word_rows(
                flat@,
                max_width as nat,
                p as int,
                end as int,
            ).0,
            whole.1 == word_rows(flat@, max_width as nat, p as int, end as int).1,
        decreases end - p,
    {
        let taken = fit(flat, p, end, max_width as u128);
        proof {
            if p == end {
                assert(flat@.subrange(p as int, end as int) =~= Seq::empty());
            }
            let rest = word_rows(flat@, max_width as nat, p + taken, end as int);
            lemma_ranges_push(out@, p, (p + taken) as usize);
            assert(ranges(out@) + (seq![(p as int, p + taken)] + rest.0) =~= ranges(out@).push(
                (p as int, p + taken),
            ) + rest.0);
        }
        out.push((p, p + taken));
        p += taken;
    }
    assert(ranges(out@) + Seq::<(int, int)>::empty() =~= ranges(out@));
    p
}

/// The ranges of the display rows of `flat` at `max_width` columns.
fn wrap_ranges(flat: &Vec<Cell>, max_width: usize) -> (r: Vec<(usize, usize)>)
    requires
        max_width >= 1,
    ensures
        ranges(r@) == row_ranges(flat@, max_width as nat),
{
    let mut out: Vec<(usize, usize)> = Vec::new();
    if flat.len() == 0 {
        out.push((0, 0));
        assert(ranges(out@) =~= row_ranges(flat@, max_width as nat));
        return out;
    }
    let ghost goal = row_ranges(flat@, max_width as nat);
    let ghost width = max_width as nat;
    let mut start: usize = 0;
    let mut at: usize = 0;
    assert(goal =~= ranges(out@) + rows_from(flat@, width, start as int, at as int));
    while at < flat.len()
        invariant
            start <= at <= flat@.len(),
            width == max_width as nat,
            goal == row_ranges(flat@, width),
            goal == ranges(out@) + rows_from(flat@, width, start as int, at as int),
        decreases flat@.len() - at,
    {
        let ghost done = ranges(out@);
        let mut word: usize = at;
        while word < flat.len() && flat[word].0 == ' '
            invariant
                at <= word <= flat@.len(),
                spaces_end(flat@, word as int) == spaces_end(flat@, at as int),
            decreases flat@.len() - word,
        {
            word += 1;
        }
        assert(word as int == spaces_end(flat@, at as int));
        if word == flat.len() {
            let used = columns_between(flat, start, at);
            let room = (max_width as u128).saturating_sub(used);
            let spaces: usize = word - at;
            let kept: usize = if room < spaces as u128 {
                room as usize
            } else {
                spaces
            };
            proof {
                lemma_ranges_push(out@, start, (at + kept) as usize);
                assert(ranges(out@).push((start as int, at + kept)) =~= done + seq![
                    (start as int, at + kept),
                ]);
            }
            out.push((start, at + kept));
            return out;
        }
        let mut end: usize = word;
        while end < flat.len() && flat[end].0 != ' '
            invariant
                word <= end <= flat@.len(),
                word_end(flat@, end as int) == word_end(flat@, word as int),
            decreases flat@.len() - end,
        {
            end += 1;
        }
        assert(end as int == word_end(flat@, word as int));
        proof {
            lemma_word_end(flat@, word as int);
            lemma_spaces_end(flat@, at as int);
        }
        if columns_between(flat, start, end) <= max_width as u128 {
            at = end;
        } else {
            let ghost flushed = if start < at {
                seq![(start as int, at as int)]
            } else {
                Seq::empty()
            };
            if start < at {
                proof {
                    lemma_ranges_push(out@, start, at);
                }
                out.push((start, at));
            }
            assert(ranges(out@) =~= done + flushed);
            if columns_between(flat, word, end) > max_width as u128 {
                let last = push_word_rows(&mut out, flat, max_width, word, end);
                proof {
                    let rows = word_rows(flat@, width, word as int, end as int).0;
                    let rest = rows_from(flat@, width, last as int, end as int);
                    assert(done + (flushed + rows + rest) =~= (done + flushed + rows) + rest);
                }
                start = last;
            } else {
                proof {
                    let rest = rows_from(flat@, width, word as int, end as int);
                    assert(done + (flushed + rest) =~= (done + flushed) + rest);
                }
                start = word;
            }
            at = end;
        }
    }
    if start < at {
        proof {
            lemma_ranges_push(out@, start, at);
            assert(ranges(out@) + seq![(start as int, at as int)] =~= ranges(out@).push(
                (start as int, at as int),
            ));
        }
        out.push((start, at));
    } else {
        assert(ranges(out@) + Seq::<(int, int)>::empty() =~= ranges(out@));
    }
    out
}

/// The row width in use: at least one column.
pub open spec fn row_width(max_width: usize) -> nat {
    if max_width == 0 {
        1
    } else {
        max_width as nat
    }
}

/// The ranges of the display rows of a line.
pub open spec fn line_ranges(line: style::LineView, max_width: usize) -> Seq<(int, int)> {
    row_ranges(line_cells(line), row_width(max_width))
}

/// The display rows of a line: one line of runs per range.
pub open spec fn line_rows(line: style::LineView, max_width: usize) -> Seq<style::LineView> {
    let flat = line_cells(line);
    let rows = line_ranges(line, max_width);
    Seq::new(rows.len(), |k: int| style::line(runs(flat.subrange(rows[k].0, rows[k].1))))
}

proof fn lemma_ranges_in_line(flat: Seq<Cell>, max_width: nat)
    requires
        max_width >= 1,
    ensures
        forall|k: int|
            0 <= k < row_ranges(flat, max_width).len() ==> 0 <= (#[trigger] row_ranges(
                flat,
                max_width,
            )[k]).0 <= row_ranges(flat, max_width)[k].1 <= flat.len(),
        row_ranges(flat, max_width).len() >= 1,
        row_ranges(flat, max_width).len() <= flat.len() || row_ranges(flat, max_width).len() == 1,
{
    if flat.len() > 0 {
        law_rows(flat, max_width);
    }
}

/// Expands one logical line into the display rows that it takes at
/// `max_width` columns, each with the range of characters that it shows. The
/// spaces at which the line breaks are shown by no row.
pub fn wrap_line_rows_indexed(line: &Line, max_width: usize) -> (r: (
    Vec<Line>,
    Vec<(usize, usize)>,
))
    ensures
        ranges(r.1@) == line_ranges(line@, max_width),
        style::line_views(r.0@) == line_rows(line@, max_width),
        r.0@.len() == r.1@.len(),
        r.0@.len() >= 1,
{
    let w: usize = if max_width == 0 {
        1
    } else {
        max_width
    };
    let flat = flatten(line);
    let found = wrap_ranges(&flat, w);
    let ghost goal = line_rows(line@, max_width);
    let mut rows: Vec<Line> = Vec::new();
    let mut k: usize = 0;
    proof {
        lemma_ranges_in_line(flat@, w as nat);
        assert(style::line_views(rows@) =~= goal.take(0));
    }
    while k < found.len()
        invariant
            k <= found@.len(),
            flat@ == line_cells(line@),
            ranges(found@) == line_ranges(line@, max_width),
            goal == line_rows(line@, max_width),
            style::line_views(rows@) == goal.take(k as int),
            forall|i: int|
                0 <= i < found@.len() ==> 0 <= (#[trigger] ranges(found@)[i]).0 <= ranges(
                    found@,
                )[i].1 <= flat@.len(),
        decreases found@.len() - k,
    {
        broadcast use style::line_views_push;

        let (from, to) = found[k];
        assert(ranges(found@)[k as int] == (from as int, to as int));
        rows.push(Line::from_spans(build_runs(&flat, from, to)));
        k += 1;
        assert(goal.take(k as int) =~= goal.take(k - 1).push(goal[k - 1]));
    }
    assert(goal.take(k as int) =~= goal);
    assert(style::line_views(rows@).len() == rows@.len());
    (rows, found)
}

/// Expands one logical line into the display rows that it takes at
/// `max_width` columns.
pub fn wrap_line_rows(line: &Line, max_width: usize) -> (r: Vec<Line>)
    ensures
        style::line_views(r@) == line_rows(line@, max_width),
{
    wrap_line_rows_indexed(line, max_width).0
}

/// The row of `rows` that shows the character `offset`: the first one that
/// ends behind it, or the last row.
pub open spec fn row_holding(rows: Seq<(int, int)>, offset: int) -> int
    decreases rows.len(),
{
    if rows.len() == 0 {
        0
    } else if rows.len() == 1 || offset < rows[0].1 {
        0
    } else {
        1 + row_holding(rows.drop_first(), offset)
    }
}

proof fn lemma_row_holding(rows: Seq<(int, int)>, offset: int, k: int)
    requires
        0 <= k < rows.len(),
        forall|j: int| 0 <= j < k ==> (#[trigger] rows[j]).1 <= offset,
        offset < rows[k].1 || k == rows.len() - 1,
    ensures
        row_holding(rows, offset) == k,
    decreases k,
{
    if k > 0 {
        assert(rows[0].1 <= offset);
        assert forall|j: int| 0 <= j < k - 1 implies (#[trigger] rows.drop_first()[j]).1
            <= offset by {
            assert(rows.drop_first()[j] == rows[j + 1]);
        }
        lemma_row_holding(rows.drop_first(), offset, k - 1);
    }
}

/// The display row that shows the character `char_offset` of `line`. A
/// character that no row shows belongs to the row of the word behind it; an
/// offset behind the line belongs to the last row.
pub fn wrapped_row_of_char(line: &Line, char_offset: usize, max_width: usize) -> (r: usize)
    ensures
        r as int == row_holding(line_ranges(line@, max_width), char_offset as int),
        r < line_ranges(line@, max_width).len(),
{
    let (_, found) = wrap_line_rows_indexed(line, max_width);
    let ghost rows = line_ranges(line@, max_width);
    let mut i: usize = 0;
    while i < found.len()
        invariant
            i <= found@.len(),
            found@.len() >= 1,
            rows == ranges(found@),
            rows == line_ranges(line@, max_width),
            forall|j: int| 0 <= j < i ==> (#[trigger] rows[j]).1 <= char_offset,
        decreases found@.len() - i,
    {
        assert(rows[i as int] == (found@[i as int].0 as int, found@[i as int].1 as int));
        if char_offset < found[i].1 {
            proof {
                lemma_row_holding(rows, char_offset as int, i as int);
            }
            return i;
        }
        i += 1;
    }
    proof {
        lemma_row_holding(rows, char_offset as int, found@.len() - 1);
    }
    found.len() - 1
}

/// A character that a row shows is looked up on that very row.
pub proof fn law_row_of_shown_char(line: style::LineView, max_width: usize, k: int, offset: int)
    requires
        line_cells(line).len() > 0,
        0 <= k < line_ranges(line, max_width).len(),
        line_ranges(line, max_width)[k].0 <= offset < line_ranges(line, max_width)[k].1,
    ensures
        row_holding(line_ranges(line, max_width), offset) == k,
{
    let rows = line_ranges(line, max_width);
    law_rows(line_cells(line), row_width(max_width));
    assert forall|j: int| 0 <= j < k implies (#[trigger] rows[j]).1 <= offset by {
        assert(rows[j].1 <= rows[k].0);
    }
    lemma_row_holding(rows, offset, k);
}

/// Whether some range of `rows` holds the index `i`.
pub open spec fn covered(rows: Seq<(int, int)>, i: int) -> bool {
    exists|k: int| 0 <= k < rows.len() && (#[trigger] rows[k]).0 <= i < rows[k].1
}

/// Whether the row `rows[k]` keeps to `max_width` columns: it fits, or it is a
/// single glyph.
pub open spec fn row_fits(flat: Seq<Cell>, max_width: nat, rows: Seq<(int, int)>, k: int) -> bool {
    let (from, to) = rows[k];
    range_columns(flat, from, to) <= max_width || to == from + 1
}

/// What holds of the rows of a line from the index `lo` on.
pub open spec fn proper_rows(flat: Seq<Cell>, max_width: nat, rows: Seq<(int, int)>, lo: int) -> bool {
    &&& forall|k: int|
        0 <= k < rows.len() ==> lo <= (#[trigger] rows[k]).0 < rows[k].1 <= flat.len()
    &&& forall|j: int, k: int|
        0 <= j < k < rows.len() ==> (#[trigger] rows[j]).1 <= (#[trigger] rows[k]).0
    &&& forall|i: int|
        lo <= i < flat.len() && (#[trigger] flat[i]).0 != ' ' ==> covered(rows, i)
    &&& forall|k: int|
        0 <= k < rows.len() ==> #[trigger] row_fits(flat, max_width, rows, k)
}

proof fn lemma_fitting_width(cells: Seq<Cell>, room: int, taken: int, used: int)
    requires
        0 <= taken <= cells.len(),
        used == cells_columns(cells.take(taken)),
        taken <= 1 || used <= room,
    ensures
        fitting_from(cells, room, taken, used) <= 1 || cells_columns(
            cells.take(fitting_from(cells, room, taken, used)),
        ) <= room,
    decreases cells.len() - taken,
{
    if taken < cells.len() && (taken == 0 || used + cell_columns(cells[taken]) <= room) {
        assert(cells.take(taken + 1).drop_last() =~= cells.take(taken));
        lemma_fitting_width(cells, room, taken + 1, used + cell_columns(cells[taken]));
    }
}

/// The rows of an overlong word lie end to end from `pos` to the word's last
/// part, and each fits or is a single glyph.
proof fn lemma_word_rows(flat: Seq<Cell>, max_width: nat, pos: int, end: int)
    requires
        0 <= pos <= end <= flat.len(),
    ensures
        ({
            let (rows, last) = word_rows(flat, max_width, pos, end);
            &&& pos <= last <= end
            &&& range_columns(flat, last, end) <= max_width
            &&& forall|k: int|
                0 <= k < rows.len() ==> pos <= (#[trigger] rows[k]).0 < rows[k].1 <= last
            &&& forall|j: int, k: int|
                0 <= j < k < rows.len() ==> (#[trigger] rows[j]).1 <= (#[trigger] rows[k]).0
            &&& forall|i: int| pos <= i < last ==> #[trigger] covered(rows, i)
            &&& forall|k: int|
                0 <= k < rows.len() ==> range_columns(flat, (#[trigger] rows[k]).0, rows[k].1)
                    <= max_width || rows[k].1 == rows[k].0 + 1
        }),
    decreases end - pos,
{
    if range_columns(flat, pos, end) > max_width {
        if pos == end {
            assert(flat.subrange(pos, end) =~= Seq::empty());
        }
        let cells = flat.subrange(pos, end);
        lemma_fitting_from(cells, max_width as int, 0, 0);
        assert(cells.take(0) =~= Seq::empty());
        lemma_fitting_width(cells, max_width as int, 0, 0);
        let taken = fitting(cells, max_width as int);
        assert(cells.take(taken) =~= flat.subrange(pos, pos + taken));
        lemma_word_rows(flat, max_width, pos + taken, end);
        let (rest, last) = word_rows(flat, max_width, pos + taken, end);
        let (rows, _) = word_rows(flat, max_width, pos, end);
        assert forall|i: int| pos <= i < last implies #[trigger] covered(rows, i) by {
            if i < pos + taken {
                assert(rows[0].0 <= i < rows[0].1);
            } else {
                assert(covered(rest, i));
                let k = choose|k: int|
                    0 <= k < rest.len() && (#[trigger] rest[k]).0 <= i < rest[k].1;
                assert(rows[k + 1] == rest[k]);
            }
        }
    }
}

proof fn lemma_covered_add(a: Seq<(int, int)>, b: Seq<(int, int)>, i: int)
    requires
        covered(a, i) || covered(b, i),
    ensures
        covered(a + b, i),
{
    if covered(a, i) {
        let k = choose|k: int| 0 <= k < a.len() && (#[trigger] a[k]).0 <= i < a[k].1;
        assert((a + b)[k] == a[k]);
    } else {
        let k = choose|k: int| 0 <= k < b.len() && (#[trigger] b[k]).0 <= i < b[k].1;
        assert((a + b)[k + a.len()] == b[k]);
    }
}

/// Rows put before the rows of the rest of the line.
proof fn lemma_proper_join(
    flat: Seq<Cell>,
    max_width: nat,
    head: Seq<(int, int)>,
    tail: Seq<(int, int)>,
    lo: int,
    mid: int,
)
    requires
        0 <= lo <= mid <= flat.len(),
        proper_rows(flat, max_width, tail, mid),
        forall|k: int| 0 <= k < head.len() ==> lo <= (#[trigger] head[k]).0 < head[k].1 <= mid,
        forall|j: int, k: int|
            0 <= j < k < head.len() ==> (#[trigger] head[j]).1 <= (#[trigger] head[k]).0,
        forall|i: int|
            lo <= i < mid && (#[trigger] flat[i]).0 != ' ' ==> covered(head, i),
        forall|k: int|
            0 <= k < head.len() ==> range_columns(flat, (#[trigger] head[k]).0, head[k].1)
                <= max_width || head[k].1 == head[k].0 + 1,
    ensures
        proper_rows(flat, max_width, head + tail, lo),
{
    let rows = head + tail;
    assert forall|i: int| lo <= i < flat.len() && (#[trigger] flat[i]).0 != ' ' implies covered(
        rows,
        i,
    ) by {
        lemma_covered_add(head, tail, i);
    }
    assert forall|k: int| 0 <= k < rows.len() implies #[trigger] row_fits(
        flat,
        max_width,
        rows,
        k,
    ) by {
        if k < head.len() {
            assert(rows[k] == head[k]);
        } else {
            assert(rows[k] == tail[k - head.len()]);
            assert(row_fits(flat, max_width, tail, k - head.len()));
        }
    }
}

/// A space takes one column.
proof fn lemma_spaces_columns(flat: Seq<Cell>, from: int, to: int)
    requires
        0 <= from <= to <= flat.len(),
        forall|k: int| from <= k < to ==> (#[trigger] flat[k]).0 == ' ',
    ensures
        range_columns(flat, from, to) == to - from,
    decreases to - from,
{
    if from < to {
        lemma_spaces_columns(flat, from, to - 1);
        assert(flat.subrange(from, to).drop_last() =~= flat.subrange(from, to - 1));
        assert(flat[to - 1].0 == ' ');
    } else {
        assert(flat.subrange(from, to) =~= Seq::empty());
    }
}

proof fn lemma_rows_from(flat: Seq<Cell>, max_width: nat, start: int, at: int)
    requires
        max_width >= 1,
        0 <= start <= at <= flat.len(),
        range_columns(flat, start, at) <= max_width,
    ensures
        proper_rows(flat, max_width, rows_from(flat, max_width, start, at), start),
    decreases flat.len() - at,
{
    let rows = rows_from(flat, max_width, start, at);
    let flushed: Seq<(int, int)> = if start < at {
        seq![(start, at)]
    } else {
        Seq::empty()
    };
    let word = spaces_end(flat, at);
    let end = word_end(flat, word);
    lemma_spaces_end(flat, at);
    lemma_word_end(flat, word);
    if at == flat.len() {
        assert forall|i: int| start <= i < flat.len() && (#[trigger] flat[i]).0
            != ' ' implies covered(rows, i) by {
            assert(rows[0].0 <= i < rows[0].1);
        }
        assert forall|k: int| 0 <= k < rows.len() implies #[trigger] row_fits(
            flat,
            max_width,
            rows,
            k,
        ) by {
            assert(rows[k] == (start, at));
        }
    } else if word == flat.len() {
        let kept = trailing_kept(max_width - range_columns(flat, start, at), word - at);
        if start == at {
            assert(flat.subrange(start, at) =~= Seq::empty());
        }
        lemma_spaces_columns(flat, at, at + kept);
        lemma_columns_add(flat, start, at, at + kept);
        assert(rows =~= seq![(start, at + kept)]);
        assert forall|i: int| start <= i < flat.len() && (#[trigger] flat[i]).0
            != ' ' implies covered(rows, i) by {
            assert(i < at);
            assert(rows[0].0 <= i < rows[0].1);
        }
        assert forall|k: int| 0 <= k < rows.len() implies #[trigger] row_fits(
            flat,
            max_width,
            rows,
            k,
        ) by {
            assert(rows[k] == (start, at + kept));
        }
    } else if range_columns(flat, start, end) <= max_width {
        lemma_rows_from(flat, max_width, start, end);
    } else {
        assert forall|i: int| start <= i < word && (#[trigger] flat[i]).0 != ' ' implies covered(
            flushed,
            i,
        ) by {
            assert(flushed[0] == (start, at));
        }
        if range_columns(flat, word, end) > max_width {
            let (split, last) = word_rows(flat, max_width, word, end);
            lemma_word_rows(flat, max_width, word, end);
            lemma_rows_from(flat, max_width, last, end);
            let head = flushed + split;
            assert forall|i: int| start <= i < last && (#[trigger] flat[i]).0
                != ' ' implies covered(head, i) by {
                if i >= word {
                    assert(covered(split, i));
                }
                lemma_covered_add(flushed, split, i);
            }
            lemma_proper_join(
                flat,
                max_width,
                head,
                rows_from(flat, max_width, last, end),
                start,
                last,
            );
        } else {
            lemma_rows_from(flat, max_width, word, end);
            lemma_proper_join(
                flat,
                max_width,
                flushed,
                rows_from(flat, max_width, word, end),
                start,
                word,
            );
        }
    }
}

/// The display rows of a line that is not empty: they are not empty and follow
/// each other in order inside the line; every character but a space stands in
/// one of them; and each keeps to the width, but for a single glyph that is
/// wider than a row.
pub proof fn law_rows(flat: Seq<Cell>, max_width: nat)
    requires
        flat.len() > 0,
        max_width >= 1,
    ensures
        proper_rows(flat, max_width, row_ranges(flat, max_width), 0),
        row_ranges(flat, max_width).len() >= 1,
        row_ranges(flat, max_width).len() <= flat.len(),
{
    assert(flat.subrange(0, 0) =~= Seq::empty());
    lemma_rows_from(flat, max_width, 0, 0);
    let rows = row_ranges(flat, max_width);
    lemma_rows_nonempty(flat, max_width, 0, 0);
    lemma_row_starts(rows, flat.len() as int, (rows.len() - 1) as int);
}

proof fn lemma_rows_nonempty(flat: Seq<Cell>, max_width: nat, start: int, at: int)
    requires
        0 <= start <= at <= flat.len(),
        start < flat.len(),
    ensures
        rows_from(flat, max_width, start, at).len() >= 1,
    decreases flat.len() - at,
{
    let word = spaces_end(flat, at);
    let end = word_end(flat, word);
    lemma_spaces_end(flat, at);
    lemma_word_end(flat, word);
    if at == flat.len() || word == flat.len() {
    } else if range_columns(flat, start, end) <= max_width {
        lemma_rows_nonempty(flat, max_width, start, end);
    } else if range_columns(flat, word, end) > max_width {
        reveal_with_fuel(word_rows, 2);
    } else {
        lemma_rows_nonempty(flat, max_width, word, end);
    }
}

proof fn lemma_row_starts(rows: Seq<(int, int)>, len: int, k: int)
    requires
        0 <= k < rows.len(),
        forall|i: int| 0 <= i < rows.len() ==> 0 <= (#[trigger] rows[i]).0 < rows[i].1 <= len,
        forall|i: int, j: int|
            0 <= i < j < rows.len() ==> (#[trigger] rows[i]).1 <= (#[trigger] rows[j]).0,
    ensures
        rows[k].1 >= k + 1,
        len >= k + 1,
    decreases k,
{
    assert(0 <= rows[k].0 < rows[k].1 <= len);
    if k > 0 {
        lemma_row_starts(rows, len, k - 1);
        assert(rows[k - 1].1 <= rows[k].0);
    }
}

/// Whether `flat[from..to]` is a whole word: no space in it, and a space or an
/// end of the line on either side.
pub open spec fn whole_word(flat: Seq<Cell>, from: int, to: int) -> bool {
    &&& 0 <= from < to <= flat.len()
    &&& forall|i: int| from <= i < to ==> (#[trigger] flat[i]).0 != ' '
    &&& from == 0 || flat[from - 1].0 == ' '
    &&& to == flat.len() || flat[to].0 == ' '
}

/// Whether a row may end and the next one begin where `row` ends and `next`
/// begins. The row is full: with the blanks behind it and the word at which the
/// next row begins it would be too wide. Between the rows stand blanks alone,
/// and they follow a word. A word is cut only where no row could hold it whole,
/// and then the row takes every glyph that fits.
pub open spec fn breaks_here(
    flat: Seq<Cell>,
    max_width: nat,
    row: (int, int),
    next: (int, int),
) -> bool {
    &&& 0 <= row.0 < row.1 <= next.0 < flat.len()
    &&& forall|i: int| row.1 <= i < next.0 ==> (#[trigger] flat[i]).0 == ' '
    &&& flat[row.1 - 1].0 != ' '
    &&& range_columns(flat, row.0, row.1) <= max_width ==> flat[next.0].0 != ' '
    &&& forall|e: int|
        next.0 < e <= flat.len() && (e == flat.len() || flat[e].0 == ' ')
            ==> #[trigger] range_columns(flat, row.0, e) > max_width
    &&& row.1 == next.0 ==> range_columns(flat, row.0, next.0 + 1) > max_width
    &&& row.1 == next.0 ==> forall|a: int, b: int|
        a < next.0 < b && #[trigger] whole_word(flat, a, b) ==> range_columns(flat, a, b)
            > max_width
}

/// Whether `row` may be the last row of the line: behind it only blanks are
/// left, and none where the row still has room.
pub open spec fn ends_here(flat: Seq<Cell>, max_width: nat, row: (int, int)) -> bool {
    &&& forall|i: int| row.1 <= i < flat.len() ==> (#[trigger] flat[i]).0 == ' '
    &&& row.1 < flat.len() ==> range_columns(flat, row.0, row.1) >= max_width
}

/// Whether `row` may be the first row from `lo` on: it begins there, or behind
/// blanks that do not fit before the first word.
pub open spec fn begins_here(flat: Seq<Cell>, max_width: nat, row: (int, int), lo: int) -> bool {
    &&& lo <= row.0
    &&& forall|i: int| lo <= i < row.0 ==> (#[trigger] flat[i]).0 == ' '
    &&& lo < row.0 ==> flat[row.0].0 != ' ' && forall|e: int|
        row.0 < e <= flat.len() && (e == flat.len() || flat[e].0 == ' ')
            ==> #[trigger] range_columns(flat, lo, e) > max_width
}

/// Whether `rows` are the rows of a greedy wrap of the line from `lo` on.
pub open spec fn greedy_rows(
    flat: Seq<Cell>,
    max_width: nat,
    rows: Seq<(int, int)>,
    lo: int,
) -> bool {
    &&& rows.len() > 0 ==> begins_here(flat, max_width, rows[0], lo)
    &&& rows.len() > 0 ==> ends_here(flat, max_width, rows.last())
    &&& forall|k: int|
        0 <= k < rows.len() - 1 ==> #[trigger] breaks_here(flat, max_width, rows[k], rows[k + 1])
}

proof fn lemma_columns_grow(flat: Seq<Cell>, a: int, b: int, c: int)
    requires
        0 <= a <= b <= c <= flat.len(),
    ensures
        range_columns(flat, a, b) <= range_columns(flat, a, c),
        range_columns(flat, b, c) <= range_columns(flat, a, c),
{
    lemma_columns_add(flat, a, b, c);
}

/// The longest prefix that fits cannot take one cell more.
proof fn lemma_fitting_full(cells: Seq<Cell>, room: int, taken: int, used: int)
    requires
        0 <= taken <= cells.len(),
        used == cells_columns(cells.take(taken)),
    ensures
        ({
            let n = fitting_from(cells, room, taken, used);
            taken <= n < cells.len() ==> cells_columns(cells.take(n + 1)) > room
        }),
    decreases cells.len() - taken,
{
    if taken < cells.len() {
        assert(cells.take(taken + 1).drop_last() =~= cells.take(taken));
        if taken == 0 || used + cell_columns(cells[taken]) <= room {
            lemma_fitting_from(cells, room, taken + 1, used + cell_columns(cells[taken]));
            lemma_fitting_full(cells, room, taken + 1, used + cell_columns(cells[taken]));
        }
    }
}

/// The rows of an overlong word lie end to end, each as full as it can be.
proof fn lemma_word_rows_full(flat: Seq<Cell>, max_width: nat, pos: int, end: int)
    requires
        0 <= pos <= end <= flat.len(),
    ensures
        ({
            let (rows, last) = word_rows(flat, max_width, pos, end);
            &&& range_columns(flat, pos, end) > max_width ==> rows.len() > 0
            &&& rows.len() == 0 ==> last == pos
            &&& rows.len() > 0 ==> rows[0].0 == pos && rows.last().1 == last
            &&& forall|k: int| 0 <= k < rows.len() - 1 ==> (#[trigger] rows[k]).1 == rows[k + 1].0
            &&& forall|k: int|
                0 <= k < rows.len() ==> pos <= (#[trigger] rows[k]).0 < rows[k].1 <= end && (
                rows[k].1 < end ==> range_columns(flat, rows[k].0, rows[k].1 + 1) > max_width) && (
                rows[k].1 == end ==> range_columns(flat, rows[k].0, rows[k].1) > max_width)
        }),
    decreases end - pos,
{
    if range_columns(flat, pos, end) > max_width {
        if pos == end {
            assert(flat.subrange(pos, end) =~= Seq::empty());
        }
        let cells = flat.subrange(pos, end);
        lemma_fitting_from(cells, max_width as int, 0, 0);
        assert(cells.take(0) =~= Seq::empty());
        lemma_fitting_full(cells, max_width as int, 0, 0);
        let taken = fitting(cells, max_width as int);
        if pos + taken < end {
            assert(cells.take(taken + 1) =~= flat.subrange(pos, pos + taken + 1));
        }
        lemma_word_rows_full(flat, max_width, pos + taken, end);
        let (rest, last) = word_rows(flat, max_width, pos + taken, end);
        let (rows, _) = word_rows(flat, max_width, pos, end);
        assert(rows =~= seq![(pos, pos + taken)] + rest);
        assert forall|k: int| 0 <= k < rows.len() - 1 implies (#[trigger] rows[k]).1 == rows[k
            + 1].0 by {
            assert(rows[k + 1] == rest[k]);
            if k > 0 {
                assert(rows[k] == rest[k - 1]);
                assert(rest[k - 1].1 == rest[k].0);
            }
        }
        assert forall|k: int| 0 <= k < rows.len() implies pos <= (#[trigger] rows[k]).0
            < rows[k].1 <= end && (rows[k].1 < end ==> range_columns(
            flat,
            rows[k].0,
            rows[k].1 + 1,
        ) > max_width) && (rows[k].1 == end ==> range_columns(flat, rows[k].0, rows[k].1)
            > max_width) by {
            if k > 0 {
                assert(rows[k] == rest[k - 1]);
            }
        }
        if rest.len() > 0 {
            assert(rows.last() == rest.last());
        }
    }
}

/// Two rows of an overlong word `flat[word..end]` may follow each other.
proof fn lemma_cut_word(
    flat: Seq<Cell>,
    max_width: nat,
    word: int,
    end: int,
    row: (int, int),
    next: (int, int),
)
    requires
        whole_word(flat, word, end),
        range_columns(flat, word, end) > max_width,
        word <= row.0 < row.1 == next.0 < end,
        range_columns(flat, row.0, row.1 + 1) > max_width,
    ensures
        breaks_here(flat, max_width, row, next),
{
    assert(flat[row.1 - 1].0 != ' ');
    assert(flat[next.0].0 != ' ');
    assert forall|e: int|
        next.0 < e <= flat.len() && (e == flat.len() || flat[e].0
            == ' ') implies #[trigger] range_columns(flat, row.0, e) > max_width by {
        lemma_columns_grow(flat, row.0, next.0 + 1, e);
    }
    assert forall|a: int, b: int|
        a < next.0 < b && #[trigger] whole_word(flat, a, b) implies range_columns(flat, a, b)
        > max_width by {
        if a < word {
            assert(flat[word - 1].0 == ' ');
        }
        if word < a {
            assert(flat[a - 1].0 != ' ');
        }
        if b < end {
            assert(flat[b].0 != ' ');
        }
        if end < b {
            assert(flat[end].0 == ' ');
        }
    }
}

/// Rows put before the rows of the rest of the line.
proof fn lemma_greedy_join(
    flat: Seq<Cell>,
    max_width: nat,
    head: Seq<(int, int)>,
    tail: Seq<(int, int)>,
    lo: int,
)
    requires
        head.len() > 0,
        begins_here(flat, max_width, head[0], lo),
        forall|k: int|
            0 <= k < head.len() - 1 ==> #[trigger] breaks_here(flat, max_width, head[k], head[k + 1]),
        forall|k: int|
            0 <= k < tail.len() - 1 ==> #[trigger] breaks_here(flat, max_width, tail[k], tail[k + 1]),
        tail.len() > 0 ==> breaks_here(flat, max_width, head.last(), tail[0]) && ends_here(
            flat,
            max_width,
            tail.last(),
        ),
        tail.len() == 0 ==> ends_here(flat, max_width, head.last()),
    ensures
        greedy_rows(flat, max_width, head + tail, lo),
        (head + tail)[0] == head[0],
{
    let rows = head + tail;
    let n = head.len();
    assert forall|k: int| 0 <= k < rows.len() - 1 implies #[trigger] breaks_here(
        flat,
        max_width,
        rows[k],
        rows[k + 1],
    ) by {
        if k < n - 1 {
            assert(breaks_here(flat, max_width, head[k], head[k + 1]));
        } else if k > n - 1 {
            assert(breaks_here(flat, max_width, tail[k - n], tail[k - n + 1]));
        }
    }
    if tail.len() > 0 {
        assert(rows.last() == tail.last());
    } else {
        assert(rows.last() == head.last());
    }
}

/// The rows of an overlong word `flat[word..end]`, and of what follows it.
proof fn lemma_greedy_cut(
    flat: Seq<Cell>,
    max_width: nat,
    word: int,
    end: int,
    tail: Seq<(int, int)>,
)
    requires
        max_width >= 1,
        whole_word(flat, word, end),
        range_columns(flat, word, end) > max_width,
        tail == rows_from(flat, max_width, word_rows(flat, max_width, word, end).1, end),
        greedy_rows(flat, max_width, tail, word_rows(flat, max_width, word, end).1),
        word_rows(flat, max_width, word, end).1 < end ==> tail.len() > 0 && tail[0].0
            == word_rows(flat, max_width, word, end).1,
    ensures
        greedy_rows(flat, max_width, word_rows(flat, max_width, word, end).0 + tail, word),
        (word_rows(flat, max_width, word, end).0 + tail).len() > 0,
        (word_rows(flat, max_width, word, end).0 + tail)[0].0 == word,
{
    let (split, last) = word_rows(flat, max_width, word, end);
    lemma_word_rows(flat, max_width, word, end);
    lemma_word_rows_full(flat, max_width, word, end);
    assert forall|k: int| 0 <= k < split.len() - 1 implies #[trigger] breaks_here(
        flat,
        max_width,
        split[k],
        split[k + 1],
    ) by {
        assert(split[k + 1].0 < end);
        lemma_cut_word(flat, max_width, word, end, split[k], split[k + 1]);
    }
    let row = split.last();
    assert(row == split[split.len() - 1]);
    if tail.len() > 0 {
        let next = tail[0];
        if last < end {
            lemma_cut_word(flat, max_width, word, end, row, next);
        } else {
            lemma_after_wide(flat, max_width, end, row, tail);
        }
    } else {
        if end < flat.len() {
            lemma_rows_nonempty(flat, max_width, last, end);
        }
    }
    lemma_greedy_join(flat, max_width, split, tail, word);
}

/// What follows a glyph that is wider than a row.
proof fn lemma_after_wide(
    flat: Seq<Cell>,
    max_width: nat,
    end: int,
    row: (int, int),
    tail: Seq<(int, int)>,
)
    requires
        max_width >= 1,
        0 <= row.0 < row.1 == end <= flat.len(),
        flat[end - 1].0 != ' ',
        end == flat.len() || flat[end].0 == ' ',
        range_columns(flat, row.0, row.1) > max_width,
        tail == rows_from(flat, max_width, end, end),
        tail.len() > 0,
        begins_here(flat, max_width, tail[0], end),
    ensures
        breaks_here(flat, max_width, row, tail[0]),
{
    let next = tail[0];
    assert(flat.subrange(end, end) =~= Seq::empty());
    lemma_rows_from(flat, max_width, end, end);
    assert(tail[0].0 < tail[0].1 <= flat.len());
    assert forall|e: int|
        next.0 < e <= flat.len() && (e == flat.len() || flat[e].0
            == ' ') implies #[trigger] range_columns(flat, row.0, e) > max_width by {
        lemma_columns_grow(flat, row.0, row.1, e);
    }
    lemma_columns_grow(flat, row.0, row.1, next.0 + 1);
    if row.1 == next.0 {
        assert(flat[next.0].0 == ' ');
    }
}

proof fn lemma_greedy(flat: Seq<Cell>, max_width: nat, start: int, at: int)
    requires
        max_width >= 1,
        0 <= start <= at <= flat.len(),
        range_columns(flat, start, at) <= max_width,
        start < at ==> flat[at - 1].0 != ' ',
        at == 0 || at == flat.len() || flat[at].0 == ' ',
    ensures
        greedy_rows(flat, max_width, rows_from(flat, max_width, start, at), start),
        start < at ==> rows_from(flat, max_width, start, at).len() > 0 && rows_from(
            flat,
            max_width,
            start,
            at,
        )[0].0 == start,
    decreases flat.len() - at,
{
    let rows = rows_from(flat, max_width, start, at);
    let word = spaces_end(flat, at);
    let end = word_end(flat, word);
    lemma_spaces_end(flat, at);
    lemma_word_end(flat, word);
    if at == flat.len() {
    } else if word == flat.len() {
        let kept = trailing_kept(max_width - range_columns(flat, start, at), word - at);
        assert(rows =~= seq![(start, at + kept)]);
        lemma_spaces_columns(flat, at, at + kept);
        lemma_columns_add(flat, start, at, at + kept);
    } else if range_columns(flat, start, end) <= max_width {
        lemma_greedy(flat, max_width, start, end);
    } else {
        let tail = if range_columns(flat, word, end) > max_width {
            let (split, last) = word_rows(flat, max_width, word, end);
            let below = rows_from(flat, max_width, last, end);
            lemma_word_rows(flat, max_width, word, end);
            lemma_greedy(flat, max_width, last, end);
            assert(whole_word(flat, word, end));
            lemma_greedy_cut(flat, max_width, word, end, below);
            split + below
        } else {
            lemma_greedy(flat, max_width, word, end);
            rows_from(flat, max_width, word, end)
        };
        assert forall|e: int|
            word < e <= flat.len() && (e == flat.len() || flat[e].0
                == ' ') implies #[trigger] range_columns(flat, start, e) > max_width by {
            if e < end {
                assert(flat[e].0 != ' ');
            }
            lemma_columns_grow(flat, start, end, e);
        }
        if start < at {
            let head = seq![(start, at)];
            assert(flat[at].0 == ' ');
            assert(breaks_here(flat, max_width, head[0], tail[0]));
            lemma_greedy_join(flat, max_width, head, tail, start);
            assert(rows =~= head + tail);
        } else {
            assert(rows =~= tail);
            assert(begins_here(flat, max_width, rows[0], start));
        }
    }
}

/// The wrap is greedy: a row ends only where the word behind it does not fit any
/// more, a word is cut only where no row could hold it, and blanks vanish only
/// where a row ends.
pub proof fn law_wrap_is_greedy(flat: Seq<Cell>, max_width: nat)
    requires
        flat.len() > 0,
        max_width >= 1,
    ensures
        row_ranges(flat, max_width).len() >= 1,
        greedy_rows(flat, max_width, row_ranges(flat, max_width), 0),
{
    assert(flat.subrange(0, 0) =~= Seq::empty());
    law_rows(flat, max_width);
    lemma_greedy(flat, max_width, 0, 0);
}

/// A line that fits has one row, which shows all of it.
pub proof fn law_fitting_line_is_one_row(line: style::LineView, max_width: usize)
    requires
        cells_columns(line_cells(line)) <= max_width,
    ensures
        line_ranges(line, max_width) == seq![(0int, line_cells(line).len() as int)],
{
    let flat = line_cells(line);
    let width = row_width(max_width);
    let rows = line_ranges(line, max_width);
    let len = flat.len() as int;
    if len > 0 {
        assert(flat.subrange(0, len) =~= flat);
        law_wrap_is_greedy(flat, width);
        law_rows(flat, width);
        assert forall|a: int, b: int| 0 <= a <= b <= len implies #[trigger] range_columns(
            flat,
            a,
            b,
        ) <= width by {
            lemma_columns_grow(flat, a, b, len);
            lemma_columns_grow(flat, 0, a, len);
        }
        if rows.len() > 1 {
            assert(breaks_here(flat, width, rows[0], rows[1]));
            assert(range_columns(flat, rows[0].0, len) > width);
        }
        if rows[0].0 > 0 {
            assert(range_columns(flat, 0, len) > width);
        }
        if rows[0].1 < len {
            lemma_columns_add(flat, 0, rows[0].1, len);
            lemma_spaces_columns(flat, rows[0].1, len);
        }
        assert(rows[0] == (0int, len));
    }
    assert(rows =~= seq![(0int, len)]);
}

/// The cells as the runs of a row show them, over no other style.
pub open spec fn shown_cells(cells: Seq<Cell>) -> Seq<Cell> {
    Seq::new(cells.len(), |i: int| (cells[i].0, style::plain().patched(cells[i].1)))
}

proof fn lemma_styled_push(content: Seq<char>, ch: char, st: Style)
    ensures
        styled_cells(content.push(ch), st) == styled_cells(content, st).push((ch, st)),
{
    assert(styled_cells(content.push(ch), st) =~= styled_cells(content, st).push((ch, st)));
}

proof fn lemma_spans_push(spans: Seq<style::SpanView>, s: style::SpanView, under: Style)
    ensures
        spans_cells(spans.push(s), under) == spans_cells(spans, under) + styled_cells(
            s.content,
            under.patched(s.style),
        ),
{
    assert(spans.push(s).drop_last() =~= spans);
    assert(spans.push(s).last() == s);
}

proof fn lemma_append(a: Seq<Cell>, b: Seq<Cell>, c: Cell)
    ensures
        a + b.push(c) == (a + b).push(c),
{
    assert(a + b.push(c) =~= (a + b).push(c));
}

proof fn lemma_shown_push(front: Seq<Cell>, c: Cell)
    ensures
        shown_cells(front.push(c)) == shown_cells(front).push(
            (c.0, style::plain().patched(c.1)),
        ),
{
    assert(shown_cells(front.push(c)) =~= shown_cells(front).push(
        (c.0, style::plain().patched(c.1)),
    ));
}

#[verifier::spinoff_prover]
proof fn lemma_runs_hold(cells: Seq<Cell>)
    ensures
        spans_cells(runs(cells), style::plain()) == shown_cells(cells),
    decreases cells.len(),
{
    let over = style::plain();
    if cells.len() > 0 {
        let front = cells.drop_last();
        lemma_runs_hold(front);
        let before = runs(front);
        let (ch, st) = cells.last();
        let shown = over.patched(st);
        assert(front.push(cells.last()) =~= cells);
        lemma_shown_push(front, cells.last());
        if before.len() > 0 && before.last().style == st {
            let head = before.drop_last();
            let own = before.last().content;
            assert(head.push(before.last()) =~= before);
            lemma_spans_push(head, before.last(), over);
            lemma_spans_push(head, style::span(own.push(ch), st), over);
            lemma_styled_push(own, ch, shown);
            lemma_append(spans_cells(head, over), styled_cells(own, shown), (ch, shown));
        } else {
            let one = Seq::<char>::empty();
            assert(one.push(ch) =~= seq![ch]);
            lemma_spans_push(before, style::span(seq![ch], st), over);
            lemma_styled_push(one, ch, shown);
            assert(styled_cells(one, shown) =~= Seq::empty());
            lemma_append(spans_cells(before, over), styled_cells(one, shown), (ch, shown));
            assert(spans_cells(before, over) + Seq::<Cell>::empty() =~= spans_cells(
                before,
                over,
            ));
        }
    } else {
        assert(shown_cells(cells) =~= Seq::empty());
    }
}

proof fn lemma_runs_differ(cells: Seq<Cell>)
    ensures
        forall|k: int|
            0 <= k < runs(cells).len() - 1 ==> (#[trigger] runs(cells)[k]).style != runs(cells)[k
                + 1].style,
        forall|k: int| 0 <= k < runs(cells).len() ==> (#[trigger] runs(cells)[k]).content.len() > 0,
    decreases cells.len(),
{
    if cells.len() > 0 {
        lemma_runs_differ(cells.drop_last());
        let before = runs(cells.drop_last());
        let all = runs(cells);
        assert forall|k: int| 0 <= k < all.len() - 1 implies (#[trigger] all[k]).style != all[k
            + 1].style by {
            if k + 1 < before.len() {
                assert(before[k].style != before[k + 1].style);
            }
        }
        assert forall|k: int| 0 <= k < all.len() implies (#[trigger] all[k]).content.len()
            > 0 by {
            if k < before.len() {
                assert(before[k].content.len() > 0);
            }
        }
    }
}

/// The runs of a row hold its cells, one by one, each in its own style, and two
/// runs side by side differ in style.
pub proof fn law_runs_keep_cells(cells: Seq<Cell>)
    ensures
        spans_cells(runs(cells), style::plain()).len() == cells.len(),
        forall|i: int|
            0 <= i < cells.len() ==> (#[trigger] spans_cells(runs(cells), style::plain())[i])
                == (cells[i].0, style::plain().patched(cells[i].1)),
        forall|k: int|
            0 <= k < runs(cells).len() - 1 ==> (#[trigger] runs(cells)[k]).style != runs(cells)[k
                + 1].style,
        forall|k: int| 0 <= k < runs(cells).len() ==> (#[trigger] runs(cells)[k]).content.len() > 0,
{
    lemma_runs_hold(cells);
    lemma_runs_differ(cells);
}

/// Every piece of a cut line is as long as it can be: with the next character it
/// would be too wide. Only a single glyph is wider than the line.
pub proof fn law_hard_wrap_is_full(line: Seq<char>, width: int, k: int)
    requires
        0 <= k < hard_wrapped(line, width).len(),
    ensures
        ({
            let pieces = hard_wrapped(line, width);
            let own = cells_columns(styled_cells(pieces[k], style::plain()));
            &&& pieces[k].len() <= 1 || own <= width
            &&& pieces.len() > 1 ==> pieces[k].len() > 0
            &&& k + 1 < pieces.len() ==> own + width::char_columns_or(pieces[k + 1][0], 0) > width
        }),
    decreases line.len(),
{
    let st = style::plain();
    let cells = styled_cells(line, st);
    let taken = fitting(cells, width);
    let pieces = hard_wrapped(line, width);
    lemma_fitting_from(cells, width, 0, 0);
    assert(cells.take(0) =~= Seq::empty());
    lemma_fitting_width(cells, width, 0, 0);
    lemma_fitting_full(cells, width, 0, 0);
    assert(cells.take(taken) =~= styled_cells(line.take(taken), st));
    if taken < line.len() {
        let rest = line.skip(taken);
        let below = hard_wrapped(rest, width);
        lemma_hard_wrap_head(rest, width);
        assert(pieces =~= seq![line.take(taken)] + below);
        if k == 0 {
            assert(cells.take(taken + 1).drop_last() =~= cells.take(taken));
            assert(cells.take(taken + 1).last() == (line[taken], st));
            assert(pieces[1] == below[0]);
        } else {
            law_hard_wrap_is_full(rest, width, k - 1);
            assert(pieces[k] == below[k - 1]);
            if k + 1 < pieces.len() {
                assert(pieces[k + 1] == below[k]);
            }
            lemma_hard_wrap_pieces(rest, width, k - 1);
        }
    } else {
        assert(line.take(taken) =~= line);
    }
}

proof fn lemma_hard_wrap_head(line: Seq<char>, width: int)
    requires
        line.len() > 0,
    ensures
        hard_wrapped(line, width).len() >= 1,
        hard_wrapped(line, width)[0].len() >= 1,
        hard_wrapped(line, width)[0][0] == line[0],
{
    lemma_fitting_from(styled_cells(line, style::plain()), width, 0, 0);
}

proof fn lemma_hard_wrap_pieces(line: Seq<char>, width: int, k: int)
    requires
        line.len() > 0,
        0 <= k < hard_wrapped(line, width).len(),
    ensures
        hard_wrapped(line, width)[k].len() >= 1,
    decreases line.len(),
{
    let taken = fitting(styled_cells(line, style::plain()), width);
    lemma_fitting_from(styled_cells(line, style::plain()), width, 0, 0);
    if taken < line.len() && k > 0 {
        assert(hard_wrapped(line, width)[k] == hard_wrapped(line.skip(taken), width)[k - 1]);
        lemma_hard_wrap_pieces(line.skip(taken), width, k - 1);
    }
}

/// The display rows of a line that fits are one row, which reads as the line.
pub proof fn law_fitting_line_shows_whole(line: &Line, max_width: usize, r: Vec<Line>)
    requires
        call_ensures(wrap_line_rows, (line, max_width), r),
        cells_columns(line_cells(line@)) <= max_width,
    ensures
        r@.len() == 1,
        r@[0]@.text() == line@.text(),
{
    law_fitting_line_is_one_row(line@, max_width);
    let views = style::line_views(r@);
    assert(views.len() == 1);
    assert(views[0] == r@[0]@);
    crate::transcript::law_row_text(line@, max_width, 0);
    crate::transcript::lemma_cells_text(line@.spans, line@.style);
    assert(line@.text().subrange(0, line@.text().len() as int) =~= line@.text());
}

/// The rows of a line wrap greedily, and each reads as the part of the line that
/// it is said to show.
pub proof fn law_rows_wrap_greedily(line: &Line, max_width: usize, r: (Vec<Line>, Vec<(usize, usize)>), k: int)
    requires
        call_ensures(wrap_line_rows_indexed, (line, max_width), r),
        line_cells(line@).len() > 0,
        max_width >= 1,
        0 <= k < r.0@.len(),
    ensures
        r.0@.len() == r.1@.len(),
        r.0@[k]@.text() == line@.text().subrange(r.1@[k].0 as int, r.1@[k].1 as int),
        k + 1 < r.1@.len() ==> breaks_here(
            line_cells(line@),
            max_width as nat,
            ranges(r.1@)[k],
            ranges(r.1@)[k + 1],
        ),
        row_fits(line_cells(line@), max_width as nat, ranges(r.1@), k),
{
    law_wrap_is_greedy(line_cells(line@), max_width as nat);
    law_rows(line_cells(line@), max_width as nat);
    assert(style::line_views(r.0@)[k] == r.0@[k]@);
    crate::transcript::law_row_text(line@, max_width, k);
    assert(ranges(r.1@)[k] == (r.1@[k].0 as int, r.1@[k].1 as int));
}

/// A line is cut into pieces that make it up, none longer than it must be.
pub proof fn law_cut_line_loses_nothing(line: &str, width: usize, r: Vec<String>)
    requires
        call_ensures(hard_wrap, (line, width), r),
    ensures
        crate::text::texts(r@).flatten() == line@,
        forall|k: int|
            0 <= k < r@.len() ==> (#[trigger] r@[k])@.len() <= 1 || cells_columns(
                styled_cells(r@[k]@, style::plain()),
            ) <= width,
{
    law_hard_wrap_keeps_text(line@, width as int);
    assert forall|k: int| 0 <= k < r@.len() implies (#[trigger] r@[k])@.len() <= 1
        || cells_columns(styled_cells(r@[k]@, style::plain())) <= width by {
        assert(crate::text::texts(r@)[k] == r@[k]@);
        law_hard_wrap_is_full(line@, width as int, k);
    }
}

/// The cells of a line are its characters, span after span, each in the style of
/// its span laid over the style of the line.
pub proof fn law_cells_of_a_line(line: &Line, r: Vec<Cell>, spans: Seq<style::SpanView>, last: style::SpanView, under: Style)
    requires
        call_ensures(flatten, (line,), r),
    ensures
        r@ == spans_cells(line@.spans, line@.style),
        r@.len() == line@.text().len(),
        forall|i: int| 0 <= i < r@.len() ==> (#[trigger] r@[i]).0 == line@.text()[i],
        spans_cells(Seq::empty(), under).len() == 0,
        spans_cells(spans.push(last), under).len() == spans_cells(spans, under).len()
            + last.content.len(),
        forall|i: int|
            0 <= i < last.content.len() ==> (#[trigger] spans_cells(
                spans.push(last),
                under,
            )[spans_cells(spans, under).len() + i]) == (
                last.content[i],
                under.patched(last.style),
            ),
{
    lemma_spans_push(spans, last, under);
    crate::transcript::lemma_cells_text(line@.spans, line@.style);
    let chars = crate::transcript::cell_chars(r@);
    assert(chars == line@.text());
    assert forall|i: int| 0 <= i < r@.len() implies (#[trigger] r@[i]).0 == line@.text()[i] by {
        assert(chars[i] == r@[i].0);
    }
}

/// A character that a row shows is found on that row.
pub proof fn law_character_is_found_on_its_row(
    line: &Line,
    char_offset: usize,
    max_width: usize,
    r: usize,
    k: int,
)
    requires
        call_ensures(wrapped_row_of_char, (line, char_offset, max_width), r),
        0 <= k < line_ranges(line@, max_width).len(),
        line_ranges(line@, max_width)[k].0 <= char_offset < line_ranges(line@, max_width)[k].1,
    ensures
        r == k,
{
    if line_cells(line@).len() == 0 {
        assert(line_ranges(line@, max_width) =~= seq![(0int, 0int)]);
    }
    law_row_of_shown_char(line@, max_width, k, char_offset as int);
}

/// The columns of a row are those of its characters together: a character takes
/// the columns of its glyph, and a control character none.
pub proof fn law_columns_add_up(flat: Seq<Cell>, a: int, b: int, c: Cell)
    ensures
        cells_columns(Seq::empty()) == 0,
        cells_columns(flat.push(c)) == cells_columns(flat) + (match width::char_columns(c.0) {
            Some(n) => n,
            None => 0,
        }),
        0 <= a < b <= flat.len() ==> range_columns(flat, a, b) == range_columns(flat, a, b - 1)
            + width::char_columns_or(flat[b - 1].0, 0),
        0 <= a <= flat.len() ==> range_columns(flat, a, a) == 0,
        ' ' <= c.0 && c.0 <= '~' ==> width::char_columns(c.0) == Some(1nat),
        c.0 < ' ' ==> width::char_columns(c.0) is None,
{
    assert(flat.push(c).drop_last() =~= flat);
    if 0 <= a < b <= flat.len() {
        assert(flat.subrange(a, b).drop_last() =~= flat.subrange(a, b - 1));
    }
    if 0 <= a <= flat.len() {
        assert(flat.subrange(a, a) =~= Seq::empty());
    }
}

/// A width of none counts as one column.
pub proof fn law_least_width(max_width: usize)
    ensures
        max_width > 0 ==> row_width(max_width) == max_width,
        max_width == 0 ==> row_width(max_width) == 1,
{
}

} // verus!
