//! Code blocks as bordered panels.

use vstd::prelude::*;
use crate::style::{Line, Span, Style};
use crate::theme::{Region, Theme};
use crate::{style, text, theme, width};

verus! {

/// `s` without the line ends behind it.
pub open spec fn trim_line_end(s: Seq<char>) -> Seq<char>
    decreases s.len(),
{
    if s.len() > 0 && (s.last() == '\n' || s.last() == '\r') {
        trim_line_end(s.drop_last())
    } else {
        s
    }
}

/// `s` without the newlines behind it.
pub open spec fn trim_newlines(s: Seq<char>) -> Seq<char>
    decreases s.len(),
{
    if s.len() > 0 && s.last() == '\n' {
        trim_newlines(s.drop_last())
    } else {
        s
    }
}

fn without_line_end(s: &str) -> (r: String)
    ensures
        r@ == trim_line_end(s@),
{
    let chars = text::to_chars(s);
    let mut n: usize = chars.len();
    assert(chars@.take(n as int) =~= s@);
    while n > 0 && (chars[n - 1] == '\n' || chars[n - 1] == '\r')
        invariant
            n <= chars@.len(),
            chars@ == s@,
            trim_line_end(s@.take(n as int)) == trim_line_end(s@),
        decreases n,
    {
        assert(s@.take(n as int).drop_last() =~= s@.take(n - 1));
        n -= 1;
    }
    assert(chars@.subrange(0, n as int) =~= s@.take(n as int));
    text::from_chars(&chars, 0, n)
}

pub fn without_newlines(s: &str) -> (r: String)
    ensures
        r@ == trim_newlines(s@),
{
    let chars = text::to_chars(s);
    let mut n: usize = chars.len();
    assert(chars@.take(n as int) =~= s@);
    while n > 0 && chars[n - 1] == '\n'
        invariant
            n <= chars@.len(),
            chars@ == s@,
            trim_newlines(s@.take(n as int)) == trim_newlines(s@),
        decreases n,
    {
        assert(s@.take(n as int).drop_last() =~= s@.take(n - 1));
        n -= 1;
    }
    assert(chars@.subrange(0, n as int) =~= s@.take(n as int));
    text::from_chars(&chars, 0, n)
}

/// The widest of some lines, in columns.
pub open spec fn widest(lines: Seq<Seq<char>>) -> nat
    decreases lines.len(),
{
    if lines.len() == 0 {
        0
    } else if widest(lines.drop_last()) < width::columns(lines.last()) {
        width::columns(lines.last())
    } else {
        widest(lines.drop_last())
    }
}

fn widest_of(lines: &Vec<String>) -> (r: usize)
    ensures
        r as nat == widest(text::texts(lines@)),
{
    let ghost views = text::texts(lines@);
    let mut most: usize = 0;
    let mut i: usize = 0;
    assert(views.take(0) =~= Seq::empty());
    while i < lines.len()
        invariant
            i <= lines@.len(),
            views == text::texts(lines@),
            most as nat == widest(views.take(i as int)),
        decreases lines@.len() - i,
    {
        let w = width::str_width(lines[i].as_str());
        if most < w {
            most = w;
        }
        i += 1;
        assert(views.take(i as int).drop_last() =~= views.take(i - 1));
    }
    assert(views.take(i as int) =~= views);
    most
}

/// The label of a code block.
pub open spec fn code_label(lang: Seq<char>) -> Seq<char> {
    if text::trim(lang).len() == 0 {
        "text"@
    } else {
        text::trim(lang)
    }
}

/// The columns granted to the code: those of its widest line, from 12 to 70.
pub open spec fn code_columns(body: Seq<char>) -> int {
    let lines = text::lines(body);
    let most: int = if lines.len() == 0 {
        10
    } else {
        widest(lines) as int
    };
    if most < 12 {
        12
    } else if most > 70 {
        70
    } else {
        most
    }
}

/// The columns of every row of a code panel: the code with its gutters and
/// borders, or what the label needs.
pub open spec fn panel_columns(body: Seq<char>, lang: Seq<char>) -> int {
    let for_label = text::capped(width::columns(code_label(lang)) as int + 8);
    if code_columns(body) + 6 < for_label {
        for_label
    } else {
        code_columns(body) + 6
    }
}

/// The dashes behind the label in the top border.
pub open spec fn top_dashes(body: Seq<char>, lang: Seq<char>) -> int {
    let n = panel_columns(body, lang) - width::columns(code_label(lang)) - 5;
    if n < 0 {
        0
    } else {
        n
    }
}

/// The top border of a code panel, with the label in it.
pub open spec fn panel_top(body: Seq<char>, lang: Seq<char>, t: Theme) -> style::LineView {
    let border = style::fg(t.code_border);
    style::line(
        seq![
            style::span("\u{256d}"@, border),
            style::span("\u{2500} "@, border),
            style::span(code_label(lang), style::fg(t.dim)),
            style::span(" "@, border),
            style::span(text::repeated('\u{2500}', top_dashes(body, lang) as nat), border),
            style::span("\u{256e}"@, border),
        ],
    )
}

/// The bottom border of a code panel of `columns` columns.
pub open spec fn panel_bottom(columns: int, t: Theme) -> style::LineView {
    style::line_of(
        "\u{2570}"@ + text::repeated('\u{2500}', (columns - 2) as nat) + "\u{256f}"@,
        style::fg(t.code_border),
    )
}

/// The spans of highlighted code, from `used` columns on, that fit in `inner`
/// columns, and the columns in use behind them. Nothing stands behind the
/// first piece that does not fit.
pub open spec fn code_spans(
    regions: Seq<theme::RegionView>,
    used: int,
    inner: int,
    under: Style,
) -> (Seq<style::SpanView>, int)
    decreases regions.len(),
{
    if regions.len() == 0 {
        (Seq::empty(), used)
    } else {
        let piece = trim_line_end(regions[0].text);
        let w = width::columns(piece);
        if piece.len() == 0 {
            code_spans(regions.drop_first(), used, inner, under)
        } else if used + w > inner {
            (Seq::empty(), used)
        } else {
            let (rest, end) = code_spans(regions.drop_first(), used + w, inner, under);
            (seq![style::span(piece, under.with_fg(regions[0].color))] + rest, end)
        }
    }
}

/// One row of a code panel of `columns` columns.
pub open spec fn panel_row(regions: Seq<theme::RegionView>, columns: int, t: Theme) -> style::LineView {
    let side = style::span("\u{2502}"@, style::fg(t.code_border).with_bg(t.code_panel_bg));
    let ground = style::bg(t.code_panel_bg);
    let (code, used) = code_spans(regions, 2, columns - 2, ground);
    let pad = if columns - 2 > used {
        seq![style::span(text::repeated(' ', (columns - 2 - used) as nat), ground)]
    } else {
        Seq::empty()
    };
    style::line(seq![side, style::span("  "@, ground)] + code + pad + seq![side])
}

/// The rows of a code panel; a line that could not be highlighted has none.
pub open spec fn panel_rows(lines: Seq<Option<Seq<theme::RegionView>>>, columns: int, t: Theme) -> Seq<
    style::LineView,
>
    decreases lines.len(),
{
    if lines.len() == 0 {
        Seq::empty()
    } else {
        match lines.last() {
            Some(regions) => panel_rows(lines.drop_last(), columns, t).push(
                panel_row(regions, columns, t),
            ),
            None => panel_rows(lines.drop_last(), columns, t),
        }
    }
}

/// A code block as a bordered panel.
pub open spec fn code_panel(
    body: Seq<char>,
    lang: Seq<char>,
    lines: Seq<Option<Seq<theme::RegionView>>>,
    t: Theme,
) -> Seq<style::LineView> {
    let columns = panel_columns(body, lang);
    seq![panel_top(body, lang, t)] + panel_rows(lines, columns, t) + seq![panel_bottom(columns, t)]
}

fn code_line_spans(
    out: &mut Vec<Span>,
    regions: &Vec<Region>,
    inner: usize,
    under: Style,
) -> (used: usize)
    requires
        inner >= 2,
    ensures
        ({
            let (code, end) = code_spans(
                theme::region_views(regions@),
                2,
                inner as int,
                under,
            );
            &&& style::span_views(final(out)@) == style::span_views(old(out)@) + code
            &&& used as int == end
        }),
        used <= inner,
{
    let ghost views = theme::region_views(regions@);
    let ghost goal = code_spans(views, 2, inner as int, under);
    let ghost before = style::span_views(out@);
    let mut used: usize = 2;
    let mut i: usize = 0;
    proof {
        assert(views.skip(0) =~= views);
        assert(before + goal.0 =~= style::span_views(out@) + goal.0);
    }
    while i < regions.len()
        invariant
            i <= regions@.len(),
            views == theme::region_views(regions@),
            goal == code_spans(views, 2, inner as int, under),
            before == style::span_views(old(out)@),
            2 <= used <= inner,
            before + goal.0 == style::span_views(out@) + code_spans(
                views.skip(i as int),
                used as int,
                inner as int,
                under,
            ).0,
            goal.1 == code_spans(views.skip(i as int), used as int, inner as int, under).1,
        decreases regions@.len() - i,
    {
        broadcast use style::span_views_push;

        let piece = without_line_end(regions[i].text.as_str());
        let ghost rest = views.skip(i as int);
        proof {
            assert(rest[0] == regions@[i as int]@);
            assert(rest.drop_first() =~= views.skip(i + 1));
        }
        if !piece.as_str().is_empty() {
            let w = width::str_width(piece.as_str());
            if w > inner - used {
                assert(style::span_views(out@) + Seq::<style::SpanView>::empty()
                    =~= style::span_views(out@));
                return used;
            }
            proof {
                let tail = code_spans(
                    rest.drop_first(),
                    used + w,
                    inner as int,
                    under,
                ).0;
                let head = style::span(piece@, under.with_fg(regions@[i as int].color));
                assert(style::span_views(out@) + (seq![head] + tail) =~= style::span_views(
                    out@,
                ).push(head) + tail);
            }
            used += w;
            out.push(Span::styled(piece, under.fg(regions[i].color)));
        }
        i += 1;
    }
    assert(views.skip(i as int) =~= Seq::empty());
    assert(style::span_views(out@) + Seq::<style::SpanView>::empty() =~= style::span_views(out@));
    used
}

fn panel_line(regions: &Vec<Region>, columns: usize, t: &Theme) -> (r: Line)
    requires
        columns >= 4,
    ensures
        r@ == panel_row(theme::region_views(regions@), columns as int, *t),
{
    broadcast use style::span_views_push;

    let side = Style::new().fg(t.code_border).bg(t.code_panel_bg);
    let ground = Style::new().bg(t.code_panel_bg);
    let mut spans: Vec<Span> = Vec::new();
    spans.push(Span::styled(text::owned("\u{2502}"), side));
    spans.push(Span::styled(text::owned("  "), ground));
    let used = code_line_spans(&mut spans, regions, columns - 2, ground);
    if columns - 2 > used {
        spans.push(Span::styled(text::repeat(' ', columns - 2 - used), ground));
    }
    spans.push(Span::styled(text::owned("\u{2502}"), side));
    let line = Line::from_spans(spans);
    assert(line@.spans =~= panel_row(theme::region_views(regions@), columns as int, *t).spans);
    line
}

/// Renders a code block as a bordered panel: `lines` are the highlighted lines
/// of the body. Every row of the panel is as wide as its borders; code that
/// does not fit is cut.
pub fn flush_code_block(
    out: &mut Vec<Line>,
    body: &str,
    lang: &str,
    lines: &Vec<Option<Vec<Region>>>,
    t: &Theme,
)
    ensures
        style::line_views(final(out)@) == style::line_views(old(out)@) + code_panel(
            body@,
            lang@,
            theme::region_lines(lines@),
            *t,
        ),
{
    broadcast use {style::span_views_push, style::line_views_push};

    let ghost before = style::line_views(out@);
    let ghost views = theme::region_lines(lines@);
    let trimmed = text::trimmed(lang);
    let label = if trimmed.as_str().is_empty() {
        text::owned("text")
    } else {
        trimmed
    };
    let label_width = width::str_width(label.as_str());
    let body_lines = text::lines_of(body);
    assert(text::texts(body_lines@).len() == body_lines@.len());
    let most: usize = if body_lines.len() == 0 {
        10
    } else {
        widest_of(&body_lines)
    };
    let code: usize = if most < 12 {
        12
    } else if most > 70 {
        70
    } else {
        most
    };
    let for_label = label_width.saturating_add(8);
    let columns: usize = if code + 6 < for_label {
        for_label
    } else {
        code + 6
    };
    assert(columns as int == panel_columns(body@, lang@));
    let border = Style::new().fg(t.code_border);
    let dashes = columns.saturating_sub(label_width).saturating_sub(5);
    assert(dashes as int == top_dashes(body@, lang@));
    let mut top: Vec<Span> = Vec::new();
    top.push(Span::styled(text::owned("\u{256d}"), border));
    top.push(Span::styled(text::owned("\u{2500} "), border));
    top.push(Span::styled(label, Style::new().fg(t.dim)));
    top.push(Span::styled(text::owned(" "), border));
    top.push(Span::styled(text::repeat('\u{2500}', dashes), border));
    top.push(Span::styled(text::owned("\u{256e}"), border));
    let top_line = Line::from_spans(top);
    assert(top_line@.spans =~= panel_top(body@, lang@, *t).spans);
    out.push(top_line);
    let ghost with_top = before + seq![panel_top(body@, lang@, *t)];
    assert(style::line_views(out@) =~= with_top);
    let mut i: usize = 0;
    proof {
        assert(views.take(0) =~= Seq::empty());
        assert(with_top =~= with_top + panel_rows(views.take(0), columns as int, *t));
    }
    while i < lines.len()
        invariant
            i <= lines@.len(),
            columns >= 4,
            views == theme::region_lines(lines@),
            style::line_views(out@) == with_top + panel_rows(
                views.take(i as int),
                columns as int,
                *t,
            ),
        decreases lines@.len() - i,
    {
        broadcast use style::line_views_push;

        assert(views.take(i + 1).drop_last() =~= views.take(i as int));
        assert(views.take(i + 1).last() == views[i as int]);
        let ghost rows = panel_rows(views.take(i as int), columns as int, *t);
        if let Some(regions) = &lines[i] {
            let row = panel_line(regions, columns, t);
            assert((with_top + rows).push(row@) =~= with_top + rows.push(row@));
            out.push(row);
        }
        i += 1;
    }
    assert(views.take(i as int) =~= views);
    let bottom = text::concat3("\u{2570}", text::repeat('\u{2500}', columns - 2).as_str(), "\u{256f}");
    out.push(Line::styled(bottom, Style::new().fg(t.code_border)));
    assert(style::line_views(out@) =~= before + code_panel(body@, lang@, views, *t));
}

/// Every row of a code panel spans the panel's columns: what its code takes,
/// the gutters and the padding add up to the columns between the borders.
pub proof fn law_panel_row_columns(regions: Seq<theme::RegionView>, columns: int, t: Theme)
    requires
        columns >= 4,
    ensures
        ({
            let (code, used) = code_spans(
                regions,
                2,
                columns - 2,
                style::bg(t.code_panel_bg),
            );
            &&& used == 2 + spans_columns(code)
            &&& 2 <= used <= columns - 2
            &&& panel_row(regions, columns, t).spans.len() >= 3 + code.len()
            &&& panel_row(regions, columns, t).spans.last().content == "\u{2502}"@
            &&& panel_row(regions, columns, t).spans.first().content == "\u{2502}"@
            &&& used < columns - 2 ==> panel_row(regions, columns, t).spans[(2
                + code.len()) as int].content.len() == columns - 2 - used
        }),
{
    lemma_code_spans(regions, 2, columns - 2, style::bg(t.code_panel_bg));
}

/// The columns of a list of spans, span by span.
pub open spec fn spans_columns(spans: Seq<style::SpanView>) -> nat
    decreases spans.len(),
{
    if spans.len() == 0 {
        0
    } else {
        width::columns(spans[0].content) + spans_columns(spans.drop_first())
    }
}

proof fn lemma_code_spans(regions: Seq<theme::RegionView>, used: int, inner: int, under: Style)
    requires
        used <= inner,
    ensures
        ({
            let (code, end) = code_spans(regions, used, inner, under);
            end == used + spans_columns(code) && used <= end <= inner
        }),
    decreases regions.len(),
{
    if regions.len() > 0 {
        let piece = trim_line_end(regions[0].text);
        let w = width::columns(piece);
        if piece.len() == 0 {
            lemma_code_spans(regions.drop_first(), used, inner, under);
        } else if used + w <= inner {
            lemma_code_spans(regions.drop_first(), used + w, inner, under);
            let (rest, _) = code_spans(regions.drop_first(), used + w, inner, under);
            let (code, _) = code_spans(regions, used, inner, under);
            assert(code.drop_first() =~= rest);
        }
    }
}

/// Only line feeds behind the code are cut.
pub proof fn law_code_loses_line_feeds_alone(s: Seq<char>)
    ensures
        trim_newlines(s).is_prefix_of(s),
        forall|i: int| trim_newlines(s).len() <= i < s.len() ==> #[trigger] s[i] == '\n',
        trim_newlines(s).len() > 0 ==> trim_newlines(s).last() != '\n',
    decreases s.len(),
{
    if s.len() > 0 && s.last() == '\n' {
        let front = s.drop_last();
        law_code_loses_line_feeds_alone(front);
        let cut = trim_newlines(s);
        assert(s.take(cut.len() as int) =~= front.take(cut.len() as int));
        assert forall|i: int| cut.len() <= i < s.len() implies #[trigger] s[i] == '\n' by {
            if i < front.len() {
                assert(front[i] == s[i]);
            }
        }
    }
}

/// The columns of the code of some regions, without their line ends.
pub open spec fn regions_columns(regions: Seq<theme::RegionView>) -> nat
    decreases regions.len(),
{
    if regions.len() == 0 {
        0
    } else {
        let piece = trim_line_end(regions[0].text);
        (if piece.len() == 0 {
            0
        } else {
            width::columns(piece)
        }) + regions_columns(regions.drop_first())
    }
}

/// The code of some regions, without their line ends.
pub open spec fn regions_text(regions: Seq<theme::RegionView>) -> Seq<char>
    decreases regions.len(),
{
    if regions.len() == 0 {
        Seq::empty()
    } else {
        trim_line_end(regions[0].text) + regions_text(regions.drop_first())
    }
}

proof fn lemma_spans_text_front(first: style::SpanView, rest: Seq<style::SpanView>)
    ensures
        style::spans_text(seq![first] + rest) == first.content + style::spans_text(rest),
    decreases rest.len(),
{
    let all = seq![first] + rest;
    if rest.len() == 0 {
        reveal_with_fuel(style::spans_text, 2);
        assert(all.drop_last() =~= Seq::empty());
        assert(style::spans_text(all) =~= first.content);
    } else {
        lemma_spans_text_front(first, rest.drop_last());
        assert(all.drop_last() =~= seq![first] + rest.drop_last());
        assert(all.last() == rest.last());
        assert(style::spans_text(all) =~= first.content + style::spans_text(rest));
    }
}

/// A line of code that fits shows all of its text, each part in its color on the
/// panel's ground.
pub proof fn law_fitting_code_shows_whole(
    regions: Seq<theme::RegionView>,
    used: int,
    inner: int,
    under: Style,
)
    requires
        used + regions_columns(regions) <= inner,
    ensures
        style::spans_text(code_spans(regions, used, inner, under).0) == regions_text(regions),
        code_spans(regions, used, inner, under).1 == used + regions_columns(regions),
    decreases regions.len(),
{
    if regions.len() > 0 {
        let piece = trim_line_end(regions[0].text);
        let w = width::columns(piece);
        let rest = regions.drop_first();
        if piece.len() == 0 {
            law_fitting_code_shows_whole(rest, used, inner, under);
            assert(piece + regions_text(rest) =~= regions_text(rest));
        } else {
            law_fitting_code_shows_whole(rest, used + w, inner, under);
            lemma_spans_text_front(
                style::span(piece, under.with_fg(regions[0].color)),
                code_spans(rest, used + w, inner, under).0,
            );
        }
    }
}

/// A panel has a row for each line of code, in order, between its top and its
/// bottom.
pub proof fn law_panel_has_a_row_per_line(
    body: Seq<char>,
    lang: Seq<char>,
    lines: Seq<Option<Seq<theme::RegionView>>>,
    t: Theme,
    i: int,
)
    requires
        forall|k: int| 0 <= k < lines.len() ==> (#[trigger] lines[k]) is Some,
        0 <= i < lines.len(),
    ensures
        code_panel(body, lang, lines, t).len() == lines.len() + 2,
        code_panel(body, lang, lines, t)[i + 1] == panel_row(
            lines[i]->0,
            panel_columns(body, lang),
            t,
        ),
{
    lemma_panel_rows(lines, panel_columns(body, lang), t, i);
}

proof fn lemma_panel_rows(
    lines: Seq<Option<Seq<theme::RegionView>>>,
    columns: int,
    t: Theme,
    i: int,
)
    requires
        forall|k: int| 0 <= k < lines.len() ==> (#[trigger] lines[k]) is Some,
        0 <= i < lines.len(),
    ensures
        panel_rows(lines, columns, t).len() == lines.len(),
        panel_rows(lines, columns, t)[i] == panel_row(lines[i]->0, columns, t),
    decreases lines.len(),
{
    let front = lines.drop_last();
    assert(lines.last() == lines[lines.len() - 1]);
    assert forall|k: int| 0 <= k < front.len() implies (#[trigger] front[k]) is Some by {
        assert(front[k] == lines[k]);
    }
    if i < front.len() {
        lemma_panel_rows(front, columns, t, i);
    } else if front.len() > 0 {
        lemma_panel_rows(front, columns, t, 0);
    } else {
        assert(panel_rows(front, columns, t).len() == 0);
    }
}

/// The code of a row begins two blanks behind the border and is followed by the
/// border alone, all on the panel's ground.
pub proof fn law_panel_row_begins(regions: Seq<theme::RegionView>, columns: int, t: Theme)
    requires
        columns >= 4,
    ensures
        ({
            let row = panel_row(regions, columns, t);
            let code = code_spans(regions, 2, columns - 2, style::bg(t.code_panel_bg)).0;
            &&& row.spans[0].content == "\u{2502}"@
            &&& row.spans[1].content == "  "@
            &&& row.spans.subrange(2, (2 + code.len()) as int) == code
            &&& row.spans.last().content == "\u{2502}"@
            &&& forall|i: int|
                0 <= i < row.spans.len() && !(2 <= i < 2 + code.len()) ==> (
                #[trigger] row.spans[i]).style.bg == Some(t.code_panel_bg)
        }),
{
    let row = panel_row(regions, columns, t);
    let code = code_spans(regions, 2, columns - 2, style::bg(t.code_panel_bg)).0;
    assert(row.spans.subrange(2, (2 + code.len()) as int) =~= code);
}

proof fn lemma_widest(lines: Seq<Seq<char>>)
    ensures
        forall|i: int| 0 <= i < lines.len() ==> width::columns(#[trigger] lines[i]) <= widest(lines),
        lines.len() > 0 ==> exists|i: int|
            0 <= i < lines.len() && width::columns(#[trigger] lines[i]) == widest(lines),
    decreases lines.len(),
{
    if lines.len() > 0 {
        let front = lines.drop_last();
        lemma_widest(front);
        assert forall|i: int| 0 <= i < lines.len() implies width::columns(#[trigger] lines[i])
            <= widest(lines) by {
            if i < front.len() {
                assert(front[i] == lines[i]);
            }
        }
        if widest(front) < width::columns(lines.last()) || front.len() == 0 {
            assert(lines[lines.len() - 1] == lines.last());
            assert(front.len() == 0 ==> widest(front) == 0);
        } else {
            let i = choose|i: int|
                0 <= i < front.len() && width::columns(#[trigger] front[i]) == widest(front);
            assert(lines[i] == front[i]);
        }
    }
}

/// A panel has room for its widest line, from twelve up to seventy columns of
/// code, with three columns on either side; a long label makes it wider.
pub proof fn law_panel_has_room(body: Seq<char>, lang: Seq<char>, i: int)
    requires
        0 <= i < text::lines(body).len(),
        width::columns(code_label(lang)) + 8 <= usize::MAX,
    ensures
        12 <= code_columns(body) <= 70,
        width::columns(text::lines(body)[i]) <= code_columns(body) || code_columns(body) == 70,
        code_columns(body) > 12 ==> exists|k: int|
            0 <= k < text::lines(body).len() && width::columns(#[trigger] text::lines(body)[k])
                >= code_columns(body),
        panel_columns(body, lang) >= code_columns(body) + 6,
        panel_columns(body, lang) >= width::columns(code_label(lang)) + 8,
        panel_columns(body, lang) == code_columns(body) + 6 || panel_columns(body, lang)
            == width::columns(code_label(lang)) + 8,
        1 + 2 + width::columns(code_label(lang)) + 1 + top_dashes(body, lang) + 1
            == panel_columns(body, lang),
{
    lemma_widest(text::lines(body));
}

/// The label of a panel is its language, or `text` where none is named.
pub proof fn law_panel_label(lang: Seq<char>)
    ensures
        text::trim(lang).len() == 0 ==> code_label(lang) == "text"@,
        text::trim(lang).len() > 0 ==> code_label(lang) == text::trim(lang),
{
}

/// A line of code that does not fit shows its beginning, as far as whole parts
/// fit, and nothing out of order.
pub proof fn law_code_shows_its_beginning(
    regions: Seq<theme::RegionView>,
    used: int,
    inner: int,
    under: Style,
)
    requires
        used <= inner,
    ensures
        style::spans_text(code_spans(regions, used, inner, under).0).is_prefix_of(
            regions_text(regions),
        ),
        code_spans(regions, used, inner, under).1 <= inner,
    decreases regions.len(),
{
    if regions.len() > 0 {
        let piece = trim_line_end(regions[0].text);
        let w = width::columns(piece);
        let rest = regions.drop_first();
        if piece.len() == 0 {
            law_code_shows_its_beginning(rest, used, inner, under);
            assert(piece + regions_text(rest) =~= regions_text(rest));
        } else if used + w <= inner {
            law_code_shows_its_beginning(rest, used + w, inner, under);
            let below = code_spans(rest, used + w, inner, under).0;
            lemma_spans_text_front(style::span(piece, under.with_fg(regions[0].color)), below);
            let shown = style::spans_text(below);
            assert(shown =~= regions_text(rest).take(shown.len() as int));
            assert(piece + shown =~= regions_text(regions).take((piece + shown).len() as int));
        }
    }
}

/// The top of a panel reads as its corners, its label and dashes; the bottom as
/// its corners and dashes.
pub proof fn law_panel_frame_reads(body: Seq<char>, lang: Seq<char>, columns: int, t: Theme)
    requires
        columns >= 2,
    ensures
        ({
            let top = panel_top(body, lang, t).spans;
            &&& top.len() == 6
            &&& top[0].content == "\u{256d}"@ && top[1].content == "\u{2500} "@
            &&& top[2].content == code_label(lang)
            &&& top[3].content == " "@
            &&& top[4].content.len() == top_dashes(body, lang)
            &&& forall|i: int|
                0 <= i < top[4].content.len() ==> #[trigger] top[4].content[i] == '\u{2500}'
            &&& top[5].content == "\u{256e}"@
        }),
        ({
            let bottom = panel_bottom(columns, t).spans;
            &&& bottom.len() == 1
            &&& bottom[0].content == "\u{2570}"@ + Seq::new(
                (columns - 2) as nat,
                |i: int| '\u{2500}',
            ) + "\u{256f}"@
        }),
{
    assert(text::repeated('\u{2500}', (columns - 2) as nat) =~= Seq::new(
        (columns - 2) as nat,
        |i: int| '\u{2500}',
    ));
}

} // verus!
