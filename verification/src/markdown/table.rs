//! Tables with aligned columns.

use vstd::prelude::*;
use crate::style::{Line, Modifier, Span, Style};
use crate::theme::Theme;
use crate::{style, text, width};

verus! {

/// The columns of a table: as many as its longest row.
pub open spec fn table_columns(rows: Seq<Seq<Seq<char>>>) -> nat
    decreases rows.len(),
{
    if rows.len() == 0 {
        0
    } else if table_columns(rows.drop_last()) < rows.last().len() {
        rows.last().len()
    } else {
        table_columns(rows.drop_last())
    }
}

/// The width of column `c`: that of its widest cell, three at least.
pub open spec fn column_width(rows: Seq<Seq<Seq<char>>>, c: int) -> nat
    decreases rows.len(),
{
    if rows.len() == 0 {
        3
    } else {
        let before = column_width(rows.drop_last(), c);
        if c < rows.last().len() && before < width::columns(rows.last()[c]) {
            width::columns(rows.last()[c])
        } else {
            before
        }
    }
}

/// The text of column `c` of a row, empty where the row has none.
pub open spec fn cell_text(cells: Seq<Seq<char>>, c: int) -> Seq<char> {
    if c < cells.len() {
        cells[c]
    } else {
        Seq::empty()
    }
}

/// The spaces left and right of a cell's text in a column of width `w`.
pub open spec fn cell_padding(cell: Seq<char>, w: int, align: u8) -> (int, int) {
    let pad = if w < width::columns(cell) {
        0
    } else {
        w - width::columns(cell)
    };
    if align == 3 {
        (pad, 1)
    } else if align == 2 {
        (pad / 2, text::capped(pad - pad / 2 + 1))
    } else {
        (0, text::capped(pad + 1))
    }
}

/// The alignment of column `c`.
pub open spec fn align_of(aligns: Seq<u8>, c: int) -> u8 {
    if c < aligns.len() {
        aligns[c]
    } else {
        0
    }
}

/// The border between two columns.
pub open spec fn column_bar(t: Theme) -> style::SpanView {
    style::span("\u{2502}"@, style::fg(t.dim))
}

/// The spans of one cell, up to the border behind it.
pub open spec fn cell_spans(cell: Seq<char>, w: int, align: u8, header: bool, t: Theme) -> Seq<
    style::SpanView,
> {
    let (left, right) = cell_padding(cell, w, align);
    let lead = if left > 0 {
        seq![style::span(text::repeated(' ', left as nat), style::plain())]
    } else {
        Seq::empty()
    };
    let ink = if header {
        style::fg(t.blue).plus(Modifier::Bold)
    } else {
        style::fg(t.fg)
    };
    lead + seq![
        style::span(cell, ink),
        style::span(text::repeated(' ', right as nat), style::plain()),
        column_bar(t),
    ]
}

/// The spans of the first `n` columns of a table row.
pub open spec fn row_spans(
    cells: Seq<Seq<char>>,
    widths: Seq<int>,
    aligns: Seq<u8>,
    header: bool,
    t: Theme,
    n: int,
) -> Seq<style::SpanView>
    decreases n,
{
    if n <= 0 {
        seq![column_bar(t)]
    } else {
        row_spans(cells, widths, aligns, header, t, n - 1) + cell_spans(
            cell_text(cells, n - 1),
            widths[n - 1],
            align_of(aligns, n - 1),
            header,
            t,
        )
    }
}

/// The rule between head and body over the first `n` columns.
pub open spec fn rule_text(widths: Seq<int>, n: int) -> Seq<char>
    decreases n,
{
    if n <= 0 {
        "\u{251c}"@
    } else {
        rule_text(widths, n - 1) + (if n > 1 {
            seq!['\u{253c}']
        } else {
            Seq::empty()
        }) + text::repeated('\u{2500}', text::capped(widths[n - 1] + 1) as nat)
    }
}

/// The widths of all columns of a table.
pub open spec fn table_widths(rows: Seq<Seq<Seq<char>>>) -> Seq<int> {
    Seq::new(table_columns(rows), |c: int| column_width(rows, c) as int)
}

/// A table row as a line.
pub open spec fn table_row(
    rows: Seq<Seq<Seq<char>>>,
    aligns: Seq<u8>,
    t: Theme,
    r: int,
) -> style::LineView {
    let widths = table_widths(rows);
    style::line(row_spans(rows[r], widths, aligns, r == 0, t, widths.len() as int))
}

/// The rule between head and body as a line.
pub open spec fn table_rule(rows: Seq<Seq<Seq<char>>>, t: Theme) -> style::LineView {
    let widths = table_widths(rows);
    style::line_of(
        rule_text(widths, widths.len() as int) + seq!['\u{2524}'],
        style::fg(t.dim),
    )
}

/// A table: its head, a rule, and its other rows. A table without cells has no
/// lines.
pub open spec fn table_lines(rows: Seq<Seq<Seq<char>>>, aligns: Seq<u8>, t: Theme) -> Seq<
    style::LineView,
> {
    if table_columns(rows) == 0 {
        Seq::empty()
    } else {
        seq![table_row(rows, aligns, t, 0), table_rule(rows, t)] + Seq::new(
            (rows.len() - 1) as nat,
            |r: int| table_row(rows, aligns, t, r + 1),
        )
    }
}

/// What the rows of a table hold.
pub open spec fn cell_texts(rows: Seq<Vec<String>>) -> Seq<Seq<Seq<char>>> {
    Seq::new(rows.len(), |i: int| text::texts(rows[i]@))
}

fn measure_columns(rows: &Vec<Vec<String>>) -> (r: usize)
    ensures
        r as nat == table_columns(cell_texts(rows@)),
{
    let ghost views = cell_texts(rows@);
    let mut n: usize = 0;
    let mut i: usize = 0;
    assert(views.take(0) =~= Seq::empty());
    while i < rows.len()
        invariant
            i <= rows@.len(),
            views == cell_texts(rows@),
            n as nat == table_columns(views.take(i as int)),
        decreases rows@.len() - i,
    {
        assert(views[i as int].len() == rows@[i as int]@.len());
        if n < rows[i].len() {
            n = rows[i].len();
        }
        i += 1;
        assert(views.take(i as int).drop_last() =~= views.take(i - 1));
    }
    assert(views.take(i as int) =~= views);
    n
}

fn measure_column(rows: &Vec<Vec<String>>, c: usize) -> (r: usize)
    ensures
        r as nat == column_width(cell_texts(rows@), c as int),
{
    let ghost views = cell_texts(rows@);
    let mut w: usize = 3;
    let mut i: usize = 0;
    assert(views.take(0) =~= Seq::empty());
    while i < rows.len()
        invariant
            i <= rows@.len(),
            views == cell_texts(rows@),
            w as nat == column_width(views.take(i as int), c as int),
        decreases rows@.len() - i,
    {
        assert(views[i as int].len() == rows@[i as int]@.len());
        if c < rows[i].len() {
            let cell = width::str_width(rows[i][c].as_str());
            assert(views[i as int][c as int] == rows@[i as int]@[c as int]@);
            if w < cell {
                w = cell;
            }
        }
        i += 1;
        assert(views.take(i as int).drop_last() =~= views.take(i - 1));
    }
    assert(views.take(i as int) =~= views);
    w
}

fn push_cell(out: &mut Vec<Span>, cell: &str, w: usize, align: u8, header: bool, t: &Theme)
    ensures
        style::span_views(final(out)@) == style::span_views(old(out)@) + cell_spans(
            cell@,
            w as int,
            align,
            header,
            *t,
        ),
{
    broadcast use style::span_views_push;

    let pad = w.saturating_sub(width::str_width(cell));
    let (left, right): (usize, usize) = if align == 3 {
        (pad, 1)
    } else if align == 2 {
        (pad / 2, (pad - pad / 2).saturating_add(1))
    } else {
        (0, pad.saturating_add(1))
    };
    assert(cell_padding(cell@, w as int, align) == (left as int, right as int));
    if left > 0 {
        out.push(Span::raw(text::repeat(' ', left)));
    }
    let ink = if header {
        Style::new().fg(t.blue).add_modifier(Modifier::Bold)
    } else {
        Style::new().fg(t.fg)
    };
    out.push(Span::styled(text::owned(cell), ink));
    out.push(Span::raw(text::repeat(' ', right)));
    out.push(Span::styled(text::owned("\u{2502}"), Style::new().fg(t.dim)));
}

/// Widths over machine integers, as integers.
pub open spec fn width_ints(v: Seq<usize>) -> Seq<int> {
    Seq::new(v.len(), |i: int| v[i] as int)
}

fn make_row(cells: &Vec<String>, widths: &Vec<usize>, aligns: &Vec<u8>, header: bool, t: &Theme) -> (r: Line)
    ensures
        r@ == style::line(
            row_spans(
                text::texts(cells@),
                width_ints(widths@),
                aligns@,
                header,
                *t,
                widths@.len() as int,
            ),
        ),
{
    broadcast use style::span_views_push;

    let ghost ws = width_ints(widths@);
    let ghost view = text::texts(cells@);
    let mut spans: Vec<Span> = Vec::new();
    spans.push(Span::styled(text::owned("\u{2502}"), Style::new().fg(t.dim)));
    let mut i: usize = 0;
    assert(style::span_views(spans@) =~= row_spans(view, ws, aligns@, header, *t, 0));
    while i < widths.len()
        invariant
            i <= widths@.len(),
            ws == width_ints(widths@),
            view == text::texts(cells@),
            style::span_views(spans@) == row_spans(view, ws, aligns@, header, *t, i as int),
        decreases widths@.len() - i,
    {
        let align: u8 = if i < aligns.len() {
            aligns[i]
        } else {
            0
        };
        if i < cells.len() {
            assert(cell_text(view, i as int) == cells@[i as int]@);
            push_cell(&mut spans, cells[i].as_str(), widths[i], align, header, t);
        } else {
            let nothing = String::new();
            push_cell(&mut spans, nothing.as_str(), widths[i], align, header, t);
        }
        i += 1;
    }
    Line::from_spans(spans)
}

fn make_rule(widths: &Vec<usize>, t: &Theme) -> (r: Line)
    ensures
        r@ == style::line_of(
            rule_text(width_ints(widths@), widths@.len() as int) + seq!['\u{2524}'],
            style::fg(t.dim),
        ),
{
    let ghost ws = width_ints(widths@);
    let mut s = text::owned("\u{251c}");
    let mut i: usize = 0;
    while i < widths.len()
        invariant
            i <= widths@.len(),
            ws == width_ints(widths@),
            s@ == rule_text(ws, i as int),
        decreases widths@.len() - i,
    {
        let ghost before = s@;
        if i > 0 {
            s.push('\u{253c}');
        }
        let dashes = text::repeat('\u{2500}', widths[i].saturating_add(1));
        s.append(dashes.as_str());
        i += 1;
        assert(s@ =~= rule_text(ws, i as int));
    }
    let ghost rule = s@;
    s.push('\u{2524}');
    assert(s@ =~= rule + seq!['\u{2524}']);
    Line::styled(s, Style::new().fg(t.dim))
}

/// Renders a collected table with column borders, a bold head and aligned
/// columns.
pub fn render_table(out: &mut Vec<Line>, rows: &Vec<Vec<String>>, aligns: &Vec<u8>, t: &Theme)
    ensures
        style::line_views(final(out)@) == style::line_views(old(out)@) + table_lines(
            cell_texts(rows@),
            aligns@,
            *t,
        ),
{
    broadcast use style::line_views_push;

    let ghost before = style::line_views(out@);
    let ghost views = cell_texts(rows@);
    let n = measure_columns(rows);
    if n == 0 {
        assert(before + Seq::<style::LineView>::empty() =~= before);
        return ;
    }
    proof {
        if rows@.len() == 0 {
            assert(views =~= Seq::empty());
        }
    }
    let mut widths: Vec<usize> = Vec::new();
    let mut c: usize = 0;
    while c < n
        invariant
            c <= n,
            n as nat == table_columns(views),
            views == cell_texts(rows@),
            width_ints(widths@) == table_widths(views).take(c as int),
        decreases n - c,
    {
        let ghost old_widths = widths@;
        widths.push(measure_column(rows, c));
        c += 1;
        assert(width_ints(widths@) =~= width_ints(old_widths).push(
            column_width(views, c - 1) as int,
        ));
        assert(table_widths(views).take(c as int) =~= width_ints(old_widths).push(
            table_widths(views)[c - 1],
        ));
    }
    assert(width_ints(widths@) =~= table_widths(views));
    out.push(make_row(&rows[0], &widths, aligns, true, t));
    out.push(make_rule(&widths, t));
    let ghost head = seq![table_row(views, aligns@, *t, 0), table_rule(views, *t)];
    let ghost body = Seq::new(
        (rows@.len() - 1) as nat,
        |r: int| table_row(views, aligns@, *t, r + 1),
    );
    assert(style::line_views(out@) =~= before + head + body.take(0));
    let mut i: usize = 1;
    while i < rows.len()
        invariant
            1 <= i <= rows@.len(),
            views == cell_texts(rows@),
            width_ints(widths@) == table_widths(views),
            body == Seq::new(
                (rows@.len() - 1) as nat,
                |r: int| table_row(views, aligns@, *t, r + 1),
            ),
            style::line_views(out@) == before + head + body.take(i - 1),
        decreases rows@.len() - i,
    {
        broadcast use style::line_views_push;

        assert(widths@.len() == table_widths(views).len());
        out.push(make_row(&rows[i], &widths, aligns, false, t));
        i += 1;
        assert(body.take(i - 1) =~= body.take(i - 2).push(body[i - 2]));
        assert(before + head + body.take(i - 1) =~= (before + head + body.take(i - 2)).push(
            body[i - 2],
        ));
    }
    assert(body.take(i - 1) =~= body);
    assert(before + head + body =~= before + (head + body));
}

proof fn lemma_column_holds(rows: Seq<Seq<Seq<char>>>, r: int, c: int)
    requires
        0 <= r < rows.len(),
        0 <= c < rows[r].len(),
    ensures
        width::columns(rows[r][c]) <= column_width(rows, c),
    decreases rows.len(),
{
    if r < rows.len() - 1 {
        lemma_column_holds(rows.drop_last(), r, c);
    }
}

/// The borders of a table line up: in every row, the text of a cell and the
/// spaces round it take as many columns as the rule has dashes there.
pub proof fn law_table_borders_align(rows: Seq<Seq<Seq<char>>>, r: int, c: int, align: u8)
    requires
        0 <= r < rows.len(),
        0 <= c < table_columns(rows),
        column_width(rows, c) < usize::MAX,
    ensures
        ({
            let cell = cell_text(rows[r], c);
            let (left, right) = cell_padding(cell, column_width(rows, c) as int, align);
            left + width::columns(cell) + right == column_width(rows, c) + 1
        }),
{
    if c < rows[r].len() {
        lemma_column_holds(rows, r, c);
    }
}

/// The text of a cell keeps to the side that its column is aligned to. In a right
/// aligned column it ends one blank before the border; in a centred one it has as
/// many blanks on the right as on the left, the last one aside, or one more; in
/// any other it begins at the border.
pub proof fn law_padding_follows_alignment(cell: Seq<char>, w: int, align: u8)
    requires
        width::columns(cell) <= w < usize::MAX,
    ensures
        ({
            let (left, right) = cell_padding(cell, w, align);
            &&& left >= 0 && right >= 1
            &&& left + width::columns(cell) + right == w + 1
            &&& align == 3 ==> right == 1
            &&& align == 2 ==> left <= right - 1 <= left + 1
            &&& align != 2 && align != 3 ==> left == 0
        }),
{
}

/// One cell of a table reads as its text between blanks, as many as its padding,
/// and the border.
pub proof fn law_cell_reads(cell: Seq<char>, w: int, align: u8, header: bool, t: Theme)
    requires
        width::columns(cell) <= w < usize::MAX,
    ensures
        ({
            let (left, right) = cell_padding(cell, w, align);
            style::spans_text(cell_spans(cell, w, align, header, t)) == text::repeated(
                ' ',
                left as nat,
            ) + cell + text::repeated(' ', right as nat) + seq!['\u{2502}']
        }),
        cell_spans(cell, w, align, header, t).contains(
            style::span(
                cell,
                if header {
                    style::fg(t.blue).plus(Modifier::Bold)
                } else {
                    style::fg(t.fg)
                },
            ),
        ),
{
    reveal_strlit("\u{2502}");
    let (left, right) = cell_padding(cell, w, align);
    let all = cell_spans(cell, w, align, header, t);
    let n = all.len() as int;
    reveal_with_fuel(style::spans_text, 5);
    assert(all.drop_last().drop_last().drop_last().len() == n - 3);
    if left > 0 {
        assert(all.drop_last().drop_last().drop_last().drop_last() =~= Seq::empty());
    } else {
        assert(text::repeated(' ', 0) =~= Seq::empty());
    }
    assert("\u{2502}"@ =~= seq!['\u{2502}']);
    assert(style::spans_text(all) =~= text::repeated(' ', left as nat) + cell + text::repeated(
        ' ',
        right as nat,
    ) + seq!['\u{2502}']);
    assert(all[n - 3].content == cell);
    assert(all[n - 3] == style::span(
        cell,
        if header {
            style::fg(t.blue).plus(Modifier::Bold)
        } else {
            style::fg(t.fg)
        },
    ));
}

/// A column is as wide as its widest cell, and three columns where that is
/// narrower.
pub proof fn law_column_is_as_wide_as_its_widest(rows: Seq<Seq<Seq<char>>>, c: int)
    requires
        0 <= c,
    ensures
        column_width(rows, c) >= 3,
        forall|r: int|
            0 <= r < rows.len() && c < rows[r].len() ==> width::columns(#[trigger] rows[r][c])
                <= column_width(rows, c),
        column_width(rows, c) > 3 ==> exists|r: int|
            0 <= r < rows.len() && c < rows[r].len() && width::columns(#[trigger] rows[r][c])
                == column_width(rows, c),
    decreases rows.len(),
{
    if rows.len() > 0 {
        let before = rows.drop_last();
        law_column_is_as_wide_as_its_widest(before, c);
        assert forall|r: int| 0 <= r < rows.len() && c < rows[r].len() implies width::columns(
            #[trigger] rows[r][c],
        ) <= column_width(rows, c) by {
            if r < before.len() {
                assert(before[r][c] == rows[r][c]);
            }
        }
        if column_width(rows, c) > 3 {
            if column_width(rows, c) == column_width(before, c) {
                let r = choose|r: int|
                    0 <= r < before.len() && c < before[r].len() && width::columns(
                        #[trigger] before[r][c],
                    ) == column_width(before, c);
                assert(rows[r][c] == before[r][c]);
            } else {
                assert(rows[rows.len() - 1][c] == rows.last()[c]);
            }
        }
    }
}

/// A table has as many columns as its longest row.
pub proof fn law_columns_of_longest_row(rows: Seq<Seq<Seq<char>>>)
    ensures
        forall|r: int| 0 <= r < rows.len() ==> (#[trigger] rows[r]).len() <= table_columns(rows),
        table_columns(rows) > 0 ==> exists|r: int|
            0 <= r < rows.len() && (#[trigger] rows[r]).len() == table_columns(rows),
    decreases rows.len(),
{
    if rows.len() > 0 {
        let before = rows.drop_last();
        law_columns_of_longest_row(before);
        assert forall|r: int| 0 <= r < rows.len() implies (#[trigger] rows[r]).len()
            <= table_columns(rows) by {
            if r < before.len() {
                assert(before[r] == rows[r]);
            }
        }
        if table_columns(rows) > 0 {
            if table_columns(rows) == table_columns(before) {
                let r = choose|r: int|
                    0 <= r < before.len() && (#[trigger] before[r]).len() == table_columns(before);
                assert(rows[r] == before[r]);
            } else {
                assert(rows[rows.len() - 1] == rows.last());
            }
        }
    }
}

/// A table shows its rows in order, the first one as its head, with one rule
/// behind the head. The rows begin with a border and hold each of their cells in
/// its column.
pub proof fn law_table_shows_every_row(rows: Seq<Seq<Seq<char>>>, aligns: Seq<u8>, t: Theme)
    ensures
        table_columns(rows) == 0 ==> table_lines(rows, aligns, t).len() == 0,
        table_columns(rows) > 0 ==> table_lines(rows, aligns, t).len() == rows.len() + 1,
        table_columns(rows) > 0 ==> table_lines(rows, aligns, t)[0].spans == row_spans(
            rows[0],
            table_widths(rows),
            aligns,
            true,
            t,
            table_columns(rows) as int,
        ),
        forall|r: int|
            1 <= r < rows.len() && table_columns(rows) > 0 ==> table_lines(rows, aligns, t)[r
                + 1].spans == row_spans(
                #[trigger] rows[r],
                table_widths(rows),
                aligns,
                false,
                t,
                table_columns(rows) as int,
            ),
        table_columns(rows) > 0 ==> table_lines(rows, aligns, t)[1].text() == rule_text(
            table_widths(rows),
            table_columns(rows) as int,
        ) + seq!['\u{2524}'],
        table_widths(rows).len() == table_columns(rows),
        forall|c: int| 0 <= c < table_columns(rows) ==> #[trigger] table_widths(rows)[c]
            == column_width(rows, c),
{
    if rows.len() == 0 {
        assert(table_columns(rows) == 0);
    }
    reveal_with_fuel(style::spans_text, 2);
    let rule = table_rule(rows, t);
    assert(rule.spans.drop_last() =~= Seq::empty());
    assert(Seq::<char>::empty() + rule.spans[0].content =~= rule.spans[0].content);
}

/// The cells of a row up to column `n` stand one behind the other, each with the
/// width and the alignment of its own column; a missing cell is an empty one.
pub proof fn law_row_holds_its_cells(
    cells: Seq<Seq<char>>,
    widths: Seq<int>,
    aligns: Seq<u8>,
    header: bool,
    t: Theme,
    c: int,
    n: int,
)
    requires
        0 <= c < n,
    ensures
        ({
            let own = if c < cells.len() {
                cells[c]
            } else {
                Seq::empty()
            };
            let align = if c < aligns.len() {
                aligns[c]
            } else {
                0
            };
            let spans = cell_spans(own, widths[c], align, header, t);
            let before = row_spans(cells, widths, aligns, header, t, c).len() as int;
            let row = row_spans(cells, widths, aligns, header, t, n);
            &&& before + spans.len() <= row.len()
            &&& row.subrange(before, before + spans.len()) == spans
        }),
        style::spans_text(row_spans(cells, widths, aligns, header, t, 0)) == seq!['\u{2502}'],
    decreases n,
{
    reveal_strlit("\u{2502}");
    reveal_with_fuel(style::spans_text, 3);
    assert(row_spans(cells, widths, aligns, header, t, 0).drop_last() =~= Seq::empty());
    assert(style::spans_text(row_spans(cells, widths, aligns, header, t, 0)) =~= seq![
        '\u{2502}',
    ]);
    let row = row_spans(cells, widths, aligns, header, t, n);
    let shorter = row_spans(cells, widths, aligns, header, t, n - 1);
    let own = cell_spans(cell_text(cells, c), widths[c], align_of(aligns, c), header, t);
    let before = row_spans(cells, widths, aligns, header, t, c).len() as int;
    if c < n - 1 {
        law_row_holds_its_cells(cells, widths, aligns, header, t, c, n - 1);
        assert(row.subrange(before, before + own.len()) =~= shorter.subrange(
            before,
            before + own.len(),
        ));
    } else {
        assert(row.subrange(before, before + own.len()) =~= own);
    }
}

/// The rule has a dash for each column of a cell and the blank behind it, and a
/// crossing for each border.
pub proof fn law_rule_has_a_dash_per_column(widths: Seq<int>, n: int)
    requires
        0 <= n <= widths.len(),
        forall|i: int| 0 <= i < widths.len() ==> 0 <= (#[trigger] widths[i]) < usize::MAX,
    ensures
        n == 0 ==> rule_text(widths, n) == seq!['\u{251c}'],
        n > 0 ==> rule_text(widths, n).len() == rule_text(widths, n - 1).len() + widths[n - 1] + 1
            + (if n > 1 {
            1int
        } else {
            0int
        }),
        n > 0 ==> rule_text(widths, n - 1).is_prefix_of(rule_text(widths, n)),
        n > 0 ==> forall|i: int|
            rule_text(widths, n).len() - widths[n - 1] - 1 <= i < rule_text(widths, n).len()
                ==> #[trigger] rule_text(widths, n)[i] == '\u{2500}',
        n > 1 ==> rule_text(widths, n)[rule_text(widths, n - 1).len() as int] == '\u{253c}',
{
    reveal_strlit("\u{251c}");
    if n == 0 {
        assert("\u{251c}"@ =~= seq!['\u{251c}']);
    } else {
        assert(rule_text(widths, n - 1) =~= rule_text(widths, n).take(
            rule_text(widths, n - 1).len() as int,
        ));
    }
}

/// A rendered table goes behind the lines that were there, a line per row and one
/// for the rule.
pub proof fn law_table_goes_behind(
    out: &mut Vec<Line>,
    rows: &Vec<Vec<String>>,
    aligns: &Vec<u8>,
    t: &Theme,
)
    requires
        call_ensures(render_table, (out, rows, aligns, t), ()),
        table_columns(cell_texts(rows@)) > 0,
    ensures
        final(out)@.len() == old(out)@.len() + rows@.len() + 1,
        style::line_views(final(out)@).take(old(out)@.len() as int) == style::line_views(
            old(out)@,
        ),
{
    law_table_shows_every_row(cell_texts(rows@), aligns@, *t);
    let before = style::line_views(old(out)@);
    let after = style::line_views(final(out)@);
    assert(after.len() == final(out)@.len());
    assert(after.take(before.len() as int) =~= before);
}

} // verus!
