//! The diagnostics-log viewer.
//!
//! A line cursor walks over logical lines. While it rests on the newest line
//! the view follows the log; one step up pins the view to the cursor.

use vstd::prelude::*;
use crate::app::{LogEntry, LogLevel, LogSearch, LogViewerState};
use crate::find::hits_in;
use crate::style::{Color, Line, Modifier, Rect, Span, Style};
use crate::theme::Theme;
use crate::ui::layout::{block_inner, split, Constraint, Direction};
use crate::ui::popups::center;
use crate::ui::strip::truncate_for_title;
use crate::ui::{layout, popups, strip};
use crate::wrap::hard_wrap;
use crate::{find, style, text, wrap};

verus! {

/// What a line of the client's own life cycle starts with.
pub const TUI_EVENT_PREFIX: &'static str = "[tui]";

/// The style of a severity.
pub open spec fn level_style(level: Option<LogLevel>, theme: Theme) -> Style {
    match level {
        Some(LogLevel::Trace) => style::fg(theme.log_trace),
        Some(LogLevel::Debug) => style::fg(theme.log_debug),
        Some(LogLevel::Info) => style::fg(theme.green),
        Some(LogLevel::Warning) => style::fg(theme.yellow),
        Some(LogLevel::Error) => style::fg(theme.red),
        Some(LogLevel::Critical) => style::fg(theme.red).plus(Modifier::Bold),
        Some(LogLevel::Success) => style::fg(theme.green),
        Some(LogLevel::Tool) => style::fg(theme.blue),
        Some(LogLevel::Think) => style::fg(theme.purple),
        Some(LogLevel::Call) => style::fg(theme.purple),
        Some(LogLevel::Check) => style::fg(theme.red),
        Some(LogLevel::Moderator) => style::fg(theme.red),
        Some(LogLevel::Subagent) => style::fg(theme.cyan),
        Some(LogLevel::Delegate) => style::fg(theme.blue),
        None => style::fg(theme.fg),
    }
}

/// The style of a line: the client's own lines are dim, any other goes by its
/// severity.
pub open spec fn entry_style(line: Seq<char>, level: Option<LogLevel>, theme: Theme) -> Style {
    if TUI_EVENT_PREFIX@.is_prefix_of(line) {
        style::fg(theme.dim)
    } else {
        level_style(level, theme)
    }
}

fn is_own_line(line: &str) -> (r: bool)
    ensures
        r == TUI_EVENT_PREFIX@.is_prefix_of(line@),
{
    let chars = text::to_chars(line);
    let prefix = text::to_chars(TUI_EVENT_PREFIX);
    if chars.len() < prefix.len() {
        return false;
    }
    let mut i: usize = 0;
    while i < prefix.len()
        invariant
            i <= prefix@.len() <= chars@.len(),
            chars@ == line@,
            prefix@ == TUI_EVENT_PREFIX@,
            forall|k: int| 0 <= k < i ==> prefix@[k] == chars@[k],
        decreases prefix@.len() - i,
    {
        if prefix[i] != chars[i] {
            return false;
        }
        i += 1;
    }
    assert(prefix@ =~= chars@.subrange(0, prefix@.len() as int));
    true
}

/// The style of a diagnostics line.
pub fn log_line_style(entry: &LogEntry, theme: &Theme) -> (r: Style)
    ensures
        r == entry_style(entry.text@, entry.level, *theme),
{
    if is_own_line(entry.text.as_str()) {
        return Style::new().fg(theme.dim);
    }
    match entry.level {
        Some(LogLevel::Trace) => Style::new().fg(theme.log_trace),
        Some(LogLevel::Debug) => Style::new().fg(theme.log_debug),
        Some(LogLevel::Info) => Style::new().fg(theme.green),
        Some(LogLevel::Warning) => Style::new().fg(theme.yellow),
        Some(LogLevel::Error) => Style::new().fg(theme.red),
        Some(LogLevel::Critical) => Style::new().fg(theme.red).add_modifier(Modifier::Bold),
        Some(LogLevel::Success) => Style::new().fg(theme.green),
        Some(LogLevel::Tool) => Style::new().fg(theme.blue),
        Some(LogLevel::Think) => Style::new().fg(theme.purple),
        Some(LogLevel::Call) => Style::new().fg(theme.purple),
        Some(LogLevel::Check) => Style::new().fg(theme.red),
        Some(LogLevel::Moderator) => Style::new().fg(theme.red),
        Some(LogLevel::Subagent) => Style::new().fg(theme.cyan),
        Some(LogLevel::Delegate) => Style::new().fg(theme.blue),
        None => Style::new().fg(theme.fg),
    }
}

/// Whether the character at `pos` of a line lies in one of `ranges`.
pub open spec fn hit(ranges: Seq<(usize, usize)>, pos: int) -> bool {
    exists|k: int| 0 <= k < ranges.len() && (#[trigger] ranges[k]).0 <= pos < ranges[k].1
}

/// For every character of a piece of a line that starts at `start`, whether it
/// lies in one of `ranges`.
pub open spec fn hits(len: nat, start: int, ranges: Seq<(usize, usize)>) -> Seq<bool> {
    Seq::new(len, |i: int| hit(ranges, start + i))
}

/// The end of the run of equal flags that reaches from `from` to `to` at least.
pub open spec fn run_end(flags: Seq<bool>, from: int, to: int) -> int
    decreases flags.len() - to,
{
    if to >= flags.len() || flags[to] != flags[from] {
        to
    } else {
        run_end(flags, from, to + 1)
    }
}

/// A run does not end before it has begun, nor behind the flags.
pub proof fn lemma_run_end(flags: Seq<bool>, from: int, to: int)
    requires
        0 <= from < to <= flags.len(),
    ensures
        to <= run_end(flags, from, to) <= flags.len(),
    decreases flags.len() - to,
{
    if to < flags.len() && flags[to] == flags[from] {
        lemma_run_end(flags, from, to + 1);
    }
}

/// The style of the characters inside or outside a hit.
pub open spec fn piece_style(base: Style, in_hit: bool, current: bool, theme: Theme) -> Style {
    if in_hit {
        let bright = base.with_fg(theme.log_match).plus(Modifier::Bold);
        if current {
            bright.plus(Modifier::Reversed)
        } else {
            bright
        }
    } else {
        base
    }
}

/// The spans of a piece from `from` on: one for each run of characters inside or
/// outside a hit.
pub open spec fn pieces(
    chars: Seq<char>,
    flags: Seq<bool>,
    from: int,
    base: Style,
    current: bool,
    theme: Theme,
) -> Seq<style::SpanView>
    decreases flags.len() - from,
{
    if from < 0 || from >= flags.len() {
        Seq::empty()
    } else {
        let end = run_end(flags, from, from + 1);
        proof {
            lemma_run_end(flags, from, from + 1);
        }
        seq![
            style::span(
                chars.subrange(from, end),
                piece_style(base, flags[from], current, theme),
            ),
        ] + pieces(chars, flags, end, base, current, theme)
    }
}

/// The base style of a row: the cursor's line has its own background.
pub open spec fn row_base(base: Style, is_cursor: bool, theme: Theme) -> Style {
    if is_cursor {
        base.with_bg(theme.selection)
    } else {
        base
    }
}

/// The spans of one display row: `chunk` is the piece of the line that starts
/// at its character `start`.
pub open spec fn row_spans(
    chunk: Seq<char>,
    start: int,
    ranges: Seq<(usize, usize)>,
    is_cursor: bool,
    is_current: bool,
    base: Style,
    theme: Theme,
) -> Seq<style::SpanView> {
    pieces(
        chunk,
        hits(chunk.len(), start, ranges),
        0,
        row_base(base, is_cursor, theme),
        is_current,
        theme,
    )
}

/// Builds the spans of one display row. A hit that crosses into the next row
/// lights up in both.
pub fn log_line_spans(
    chunk: &str,
    chunk_start: usize,
    ranges: &Vec<(usize, usize)>,
    is_cursor: bool,
    is_current_match: bool,
    base_style: Style,
    theme: &Theme,
) -> (r: Vec<Span>)
    requires
        chunk_start == 0 || chunk_start + chunk@.len() <= usize::MAX,
    ensures
        style::span_views(r@) == row_spans(
            chunk@,
            chunk_start as int,
            ranges@,
            is_cursor,
            is_current_match,
            base_style,
            *theme,
        ),
{
    let base = if is_cursor {
        base_style.bg(theme.selection)
    } else {
        base_style
    };
    let chars = text::to_chars(chunk);
    let ghost flags = hits(chunk@.len(), chunk_start as int, ranges@);
    let mut in_match: Vec<bool> = Vec::new();
    let count: usize = chars.len();
    while in_match.len() < count
        invariant
            chars@ == chunk@,
            count == chars@.len(),
            chunk_start + count <= usize::MAX,
            in_match@.len() <= chars@.len(),
            flags == hits(chunk@.len(), chunk_start as int, ranges@),
            in_match@ == flags.take(in_match@.len() as int),
        decreases chars@.len() - in_match@.len(),
    {
        let i: usize = in_match.len();
        let pos: usize = chunk_start + i;
        let mut inside = false;
        let mut k: usize = 0;
        while k < ranges.len()
            invariant
                k <= ranges@.len(),
                inside <==> exists|j: int|
                    0 <= j < k && (#[trigger] ranges@[j]).0 <= pos < ranges@[j].1,
            decreases ranges@.len() - k,
        {
            if ranges[k].0 <= pos && pos < ranges[k].1 {
                inside = true;
            }
            k += 1;
        }
        assert(inside == hit(ranges@, pos as int));
        in_match.push(inside);
        assert(flags.take(i + 1) =~= flags.take(i as int).push(flags[i as int]));
    }
    assert(flags.take(in_match@.len() as int) =~= flags);
    let ghost goal = pieces(chunk@, flags, 0, base, is_current_match, *theme);
    let mut spans: Vec<Span> = Vec::new();
    let mut run: usize = 0;
    assert(style::span_views(spans@) + goal =~= goal);
    while run < chars.len()
        invariant
            chars@ == chunk@,
            in_match@ == flags,
            flags.len() == chars@.len(),
            run <= chars@.len(),
            goal == pieces(chunk@, flags, 0, base, is_current_match, *theme),
            style::span_views(spans@) + pieces(
                chunk@,
                flags,
                run as int,
                base,
                is_current_match,
                *theme,
            ) == goal,
        decreases chars@.len() - run,
    {
        broadcast use style::span_views_push;

        let mut end: usize = run + 1;
        while end < chars.len() && in_match[end] == in_match[run]
            invariant
                chars@.len() == flags.len(),
                in_match@ == flags,
                run < end <= chars@.len(),
                run_end(flags, run as int, run + 1) == run_end(flags, run as int, end as int),
            decreases chars@.len() - end,
        {
            end += 1;
        }
        let mut st = base;
        if in_match[run] {
            st = st.fg(theme.log_match).add_modifier(Modifier::Bold);
            if is_current_match {
                st = st.add_modifier(Modifier::Reversed);
            }
        }
        let piece = text::from_chars(&chars, run, end);
        let ghost before = style::span_views(spans@);
        let ghost rest = pieces(chunk@, flags, end as int, base, is_current_match, *theme);
        let ghost one = style::span(piece@, st);
        spans.push(Span::styled(piece, st));
        proof {
            assert(run_end(flags, run as int, run + 1) == end);
            assert(before.push(one) + rest =~= before + (seq![one] + rest));
        }
        run = end;
    }
    assert(style::span_views(spans@) + Seq::<style::SpanView>::empty() =~= style::span_views(
        spans@,
    ));
    spans
}

impl LogViewerState {
    /// Whether the cursor rests on the newest line.
    pub open spec fn follows(self) -> bool {
        self.cursor + 1 >= self.lines@.len()
    }

    /// Whether the cursor rests on the newest line.
    pub fn at_tail(&self) -> (r: bool)
        ensures
            r == self.follows(),
    {
        self.lines.len() == 0 || self.cursor >= self.lines.len() - 1
    }

    /// Takes over a newer state of the log where the view follows it, with the
    /// cursor on the newest line and the search taken over to the new lines. A
    /// pinned view stays as it is.
    pub fn refresh(&mut self, lines: Vec<LogEntry>, total: u64)
        ensures
            old(self).follows() ==> *final(self) == (LogViewerState {
                cursor: layout::less(lines@.len() as int, 1) as usize,
                snapshot_total: total,
                lines,
                search: final(self).search,
                ..*old(self)
            }) && find::reindexed(old(self).search, final(self).search, lines@)
                && final(self).search_fits(),
            !old(self).follows() ==> *final(self) == *old(self),
            final(self).follows() == old(self).follows(),
    {
        if self.at_tail() {
            self.cursor = lines.len().saturating_sub(1);
            self.snapshot_total = total;
            self.lines = lines;
            self.reindex_search();
        }
    }
}

/// Where the parts of the viewer go.
#[derive(Clone, Copy, Debug, PartialEq, Eq, Structural)]
pub struct LogLayout {
    pub area: Rect,
    /// Where the lines go.
    pub content: Rect,
    /// Where the hint goes.
    pub footer: Rect,
}

/// `n`, at least `lo` and at most `hi`.
pub open spec fn clamped(n: int, lo: int, hi: int) -> int {
    if n < lo {
        lo
    } else if n > hi {
        hi
    } else {
        n
    }
}

/// The viewer's box: three quarters of the frame's height, and up to 110
/// columns.
pub open spec fn log_area(frame: Rect) -> Rect {
    popups::centered(
        frame,
        clamped(layout::less(frame.width as int, 4), 20, 110) as u16,
        clamped(
            (frame.height * 3) / 4,
            3,
            popups::greater(layout::less(frame.height as int, 2), 3),
        ) as u16,
    )
}

/// Lays out the viewer in a frame.
pub fn log_layout(frame: Rect) -> (r: LogLayout)
    requires
        frame.fits(),
    ensures
        r.area == log_area(frame),
        layout::laid_out(
            Direction::Vertical,
            layout::inner_area(log_area(frame), 1),
            seq![r.content, r.footer],
        ),
        log_area(frame).fits() ==> {
            let inner = layout::inner_area(log_area(frame), 1);
            &&& r.content == (Rect { height: (inner.height - 1) as u16, ..inner })
            &&& r.footer == (Rect {
                y: (inner.y + inner.height - 1) as u16,
                height: 1,
                ..inner
            })
        },
{
    let columns: u16 = frame.width.saturating_sub(4);
    let w: u16 = if columns < 20 {
        20
    } else if columns > 110 {
        110
    } else {
        columns
    };
    let mut most: u16 = frame.height.saturating_sub(2);
    if most < 3 {
        most = 3;
    }
    let rows: u32 = (frame.height as u32 * 3) / 4;
    let h: u16 = if rows < 3 {
        3
    } else if rows > most as u32 {
        most
    } else {
        rows as u16
    };
    let area = center(frame, w, h);
    let inner = block_inner(area, 1);
    let mut wishes: Vec<Constraint> = Vec::new();
    wishes.push(Constraint::Min(0));
    wishes.push(Constraint::Length(1));
    assert(wishes@ =~= seq![Constraint::Min(0), Constraint::Length(1)]);
    let panes = split(Direction::Vertical, inner, &wishes);
    assert(seq![panes@[0], panes@[1]] =~= panes@);
    proof {
        reveal_with_fuel(layout::wishes, 3);
        assert(wishes@.drop_last().drop_last() =~= Seq::empty());
        assert(layout::wishes(wishes@) == 1);
        assert(layout::only_min(wishes@, 0));
    }
    LogLayout { area, content: panes[0], footer: panes[1] }
}

/// The count of matches in the viewer's title.
pub open spec fn matches_note(search: LogSearch) -> Seq<char> {
    match search.current {
        Some(i) => " \u{00b7} matches: "@ + text::decimal((i + 1) as nat) + ("/"@ + text::decimal(
            search.matches@.len(),
        )),
        None => " \u{00b7} matches: "@ + text::decimal(search.matches@.len()),
    }
}

/// The viewer's title: cursor, following or pinned, wrapping, and the search
/// and copy feedback where there is any.
pub open spec fn log_title(state: LogViewerState) -> Seq<char> {
    let len = state.lines@.len();
    let pos = if state.cursor + 1 < len {
        (state.cursor + 1) as nat
    } else {
        len
    };
    let place = " Diagnostics log \u{00b7} line "@ + text::decimal(pos) + ("/"@ + text::decimal(
        len,
    ));
    let modes = (if state.follows() {
        " \u{00b7} live"@
    } else {
        " \u{00b7} pinned"@
    }) + (if state.wrap {
        " \u{00b7} wrap: on"@
    } else {
        " \u{00b7} wrap: off"@
    });
    place + modes + (match state.search_buf {
        Some(buf) => " \u{00b7} search: /"@ + strip::title_form(buf@, 12),
        None => ""@,
    }) + (match state.search {
        Some(search) => matches_note(search),
        None => ""@,
    }) + (match state.copy_note {
        Some(note) => " \u{00b7} "@ + note@,
        None => ""@,
    })
}

fn title_of(state: &LogViewerState) -> (r: String)
    requires
        state.cursor < usize::MAX,
        state.search matches Some(s) ==> (s.current matches Some(i) ==> i < s.matches@.len()),
    ensures
        r@ == log_title(*state),
{
    let len: usize = state.lines.len();
    let pos: usize = if state.cursor + 1 < len {
        state.cursor + 1
    } else {
        len
    };
    let at = text::decimal_usize(pos);
    let of = text::decimal_usize(len);
    let tail = text::concat("/", of.as_str());
    let place = text::concat3(" Diagnostics log \u{00b7} line ", at.as_str(), tail.as_str());
    let modes = text::concat(
        if state.at_tail() {
            " \u{00b7} live"
        } else {
            " \u{00b7} pinned"
        },
        if state.wrap {
            " \u{00b7} wrap: on"
        } else {
            " \u{00b7} wrap: off"
        },
    );
    let typed = match &state.search_buf {
        Some(buf) => {
            let shown = truncate_for_title(buf.as_str(), 12);
            text::concat(" \u{00b7} search: /", shown.as_str())
        },
        None => text::owned(""),
    };
    let found = match &state.search {
        Some(search) => {
            let total = text::decimal_usize(search.matches.len());
            match search.current {
                Some(i) => {
                    let number = text::decimal_usize(i + 1);
                    let of_total = text::concat("/", total.as_str());
                    text::concat3(" \u{00b7} matches: ", number.as_str(), of_total.as_str())
                },
                None => text::concat(" \u{00b7} matches: ", total.as_str()),
            }
        },
        None => text::owned(""),
    };
    let note = match &state.copy_note {
        Some(n) => text::concat(" \u{00b7} ", n.as_str()),
        None => text::owned(""),
    };
    let head = text::concat3(place.as_str(), modes.as_str(), typed.as_str());
    text::concat3(head.as_str(), found.as_str(), note.as_str())
}

/// The characters of the first `n` pieces.
pub open spec fn piece_chars(chunks: Seq<String>, n: int) -> nat
    decreases n,
{
    if n <= 0 {
        0
    } else {
        piece_chars(chunks, n - 1) + chunks[n - 1]@.len()
    }
}

/// The display pieces of a line: the given ones where the view wraps, else the
/// line itself.
pub open spec fn display_pieces(line: Seq<char>, chunks: Seq<String>, wrap: bool) -> Seq<Seq<char>> {
    if wrap {
        text::texts(chunks)
    } else {
        seq![line]
    }
}

/// What the rows of the log depend on, besides the viewer's state.
#[derive(Clone, Copy, Debug)]
pub struct LogPieces<'a> {
    /// For every line its pieces at the width of the view.
    pub chunks: &'a Vec<Vec<String>>,
    /// For every line the ranges of characters that the search hits.
    pub ranges: &'a Vec<Vec<(usize, usize)>>,
}

impl LogPieces<'_> {
    /// Whether there is something for every line of `state`, of a size that
    /// machine integers can count.
    pub open spec fn cover(self, state: LogViewerState) -> bool {
        &&& self.chunks@.len() >= state.lines@.len()
        &&& self.ranges@.len() >= state.lines@.len()
        &&& forall|i: int|
            0 <= i < state.lines@.len() ==> piece_chars(
                (#[trigger] self.chunks@[i])@,
                self.chunks@[i]@.len() as int,
            ) <= usize::MAX
    }

    /// Whether these are the pieces of the lines of `state` at `columns` columns,
    /// and the hits of its search in them.
    pub open spec fn belong(self, state: LogViewerState, columns: usize) -> bool {
        &&& self.chunks@.len() == state.lines@.len()
        &&& self.ranges@.len() == state.lines@.len()
        &&& forall|i: int|
            0 <= i < state.lines@.len() ==> text::texts((#[trigger] self.chunks@[i])@)
                == wrap::hard_wrapped(state.lines@[i].text@, columns as int)
        &&& forall|i: int|
            0 <= i < state.lines@.len() ==> wrap::ranges((#[trigger] self.ranges@[i])@)
                == find::line_hits(state.lines@[i].text@, pattern_of(state))
    }
}

/// The pattern of the viewer's search; without a search, the empty one.
pub open spec fn pattern_of(state: LogViewerState) -> Seq<char> {
    match state.search {
        Some(search) => search.pattern@,
        None => Seq::empty(),
    }
}

proof fn lemma_piece_chars(chunks: Seq<String>, n: int)
    requires
        0 <= n <= chunks.len(),
    ensures
        piece_chars(chunks, n) == text::texts(chunks).take(n).flatten_alt().len(),
    decreases n,
{
    if n > 0 {
        lemma_piece_chars(chunks, n - 1);
        assert(text::texts(chunks).take(n).drop_last() =~= text::texts(chunks).take(n - 1));
    }
}

/// Cuts the lines of the viewer to `columns` columns, and finds the hits of its
/// search in them.
pub fn log_pieces(state: &LogViewerState, columns: usize) -> (r: (
    Vec<Vec<String>>,
    Vec<Vec<(usize, usize)>>,
))
    ensures
        (LogPieces { chunks: &r.0, ranges: &r.1 }).belong(*state, columns),
        (LogPieces { chunks: &r.0, ranges: &r.1 }).cover(*state),
{
    let pattern = match &state.search {
        Some(search) => text::owned(search.pattern.as_str()),
        None => String::new(),
    };
    assert(pattern@ =~= pattern_of(*state));
    let mut chunks: Vec<Vec<String>> = Vec::new();
    let mut hits_of: Vec<Vec<(usize, usize)>> = Vec::new();
    let mut i: usize = 0;
    while i < state.lines.len()
        invariant
            i <= state.lines@.len(),
            pattern@ == pattern_of(*state),
            chunks@.len() == i,
            hits_of@.len() == i,
            forall|k: int|
                0 <= k < i ==> text::texts((#[trigger] chunks@[k])@) == wrap::hard_wrapped(
                    state.lines@[k].text@,
                    columns as int,
                ),
            forall|k: int|
                0 <= k < i ==> piece_chars((#[trigger] chunks@[k])@, chunks@[k]@.len() as int)
                    <= usize::MAX,
            forall|k: int|
                0 <= k < i ==> wrap::ranges((#[trigger] hits_of@[k])@) == find::line_hits(
                    state.lines@[k].text@,
                    pattern@,
                ),
        decreases state.lines@.len() - i,
    {
        let line = state.lines[i].text.as_str();
        let cut = hard_wrap(line, columns);
        let chars = text::to_chars(line);
        let count: usize = chars.len();
        proof {
            let texts = text::texts(cut@);
            lemma_piece_chars(cut@, cut@.len() as int);
            assert(texts.take(cut@.len() as int) =~= texts);
            wrap::law_hard_wrap_keeps_text(line@, columns as int);
            texts.lemma_flatten_and_flatten_alt_are_equivalent();
            assert(piece_chars(cut@, cut@.len() as int) == count);
        }
        chunks.push(cut);
        hits_of.push(hits_in(line, pattern.as_str()));
        i += 1;
    }
    (chunks, hits_of)
}

/// The search hits of the line at `i`; none without a search.
pub open spec fn line_ranges(state: LogViewerState, given: LogPieces, i: int) -> Seq<
    (usize, usize),
> {
    if state.search is Some {
        given.ranges@[i]@
    } else {
        Seq::empty()
    }
}

/// The line of the current search hit.
pub open spec fn current_line(state: LogViewerState) -> Option<usize> {
    match state.search {
        Some(s) => match s.current {
            Some(i) => Some(s.matches@[i as int]),
            None => None,
        },
        None => None,
    }
}

/// The rows of the first `n` pieces of the line at `i`.
pub open spec fn piece_rows(
    state: LogViewerState,
    given: LogPieces,
    i: int,
    theme: Theme,
    n: int,
) -> Seq<style::LineView>
    decreases n,
{
    if n <= 0 {
        Seq::empty()
    } else {
        let line = state.lines@[i];
        let all = display_pieces(line.text@, given.chunks@[i]@, state.wrap);
        piece_rows(state, given, i, theme, n - 1).push(
            style::line(
                row_spans(
                    all[n - 1],
                    if state.wrap {
                        piece_chars(given.chunks@[i]@, n - 1) as int
                    } else {
                        0
                    },
                    line_ranges(state, given, i),
                    i == state.cursor,
                    current_line(state) == Some(i as usize),
                    entry_style(line.text@, line.level, theme),
                    theme,
                ),
            ),
        )
    }
}

/// How many rows the line at `i` takes.
pub open spec fn row_count(state: LogViewerState, given: LogPieces, i: int) -> nat {
    if state.wrap {
        given.chunks@[i]@.len()
    } else {
        1
    }
}

/// The rows of the first `n` lines.
pub open spec fn log_rows(state: LogViewerState, given: LogPieces, theme: Theme, n: int) -> Seq<
    style::LineView,
>
    decreases n,
{
    if n <= 0 {
        Seq::empty()
    } else {
        log_rows(state, given, theme, n - 1) + piece_rows(
            state,
            given,
            n - 1,
            theme,
            row_count(state, given, n - 1) as int,
        )
    }
}

/// How many rows the first `n` lines take.
pub open spec fn rows_before(state: LogViewerState, given: LogPieces, n: int) -> nat
    decreases n,
{
    if n <= 0 {
        0
    } else {
        rows_before(state, given, n - 1) + row_count(state, given, n - 1)
    }
}

proof fn lemma_piece_rows_len(
    state: LogViewerState,
    given: LogPieces,
    i: int,
    theme: Theme,
    n: int,
)
    requires
        n >= 0,
    ensures
        piece_rows(state, given, i, theme, n).len() == n,
    decreases n,
{
    if n > 0 {
        lemma_piece_rows_len(state, given, i, theme, n - 1);
    }
}

proof fn lemma_log_rows_len(state: LogViewerState, given: LogPieces, theme: Theme, n: int)
    ensures
        log_rows(state, given, theme, n).len() == rows_before(state, given, n),
    decreases n,
{
    if n > 0 {
        lemma_log_rows_len(state, given, theme, n - 1);
        lemma_piece_rows_len(
            state,
            given,
            n - 1,
            theme,
            row_count(state, given, n - 1) as int,
        );
    }
}

proof fn lemma_rows_before_monotone(state: LogViewerState, given: LogPieces, a: int, b: int)
    requires
        a <= b,
    ensures
        rows_before(state, given, a) <= rows_before(state, given, b),
    decreases b - a,
{
    if a < b {
        lemma_rows_before_monotone(state, given, a, b - 1);
    }
}

proof fn lemma_piece_chars_monotone(chunks: Seq<String>, a: int, b: int)
    requires
        a <= b,
    ensures
        piece_chars(chunks, a) <= piece_chars(chunks, b),
    decreases b - a,
{
    if a < b {
        lemma_piece_chars_monotone(chunks, a, b - 1);
    }
}

/// The first row on screen. A view that follows the log shows its end. A pinned
/// one moves as little as it can to show the `own` rows of the cursor's line,
/// the first of which is `first`.
pub open spec fn first_visible(
    follows: bool,
    offset: int,
    first: int,
    own: int,
    total: int,
    visible: int,
) -> int {
    let most = layout::less(total, visible);
    let last = first + layout::less(own, 1);
    let kept = if offset < most {
        offset
    } else {
        most
    };
    if follows {
        most
    } else if kept > first {
        first
    } else if last + 1 > kept + visible {
        layout::less(last + 1, visible)
    } else {
        kept
    }
}

/// A pinned view shows the whole of the cursor's line, where the view is tall
/// enough for it.
pub proof fn law_cursor_in_view(offset: int, first: int, own: int, total: int, visible: int)
    requires
        0 <= offset,
        0 <= first,
        0 < own <= visible,
        first + own <= total,
    ensures
        first_visible(false, offset, first, own, total, visible) <= first,
        first + own <= first_visible(false, offset, first, own, total, visible) + visible,
{
}

/// A view that follows the log shows its last row.
pub proof fn law_tail_in_view(offset: int, first: int, own: int, total: int, visible: int)
    requires
        0 < total,
        0 < visible,
    ensures
        first_visible(true, offset, first, own, total, visible) < total,
        total <= first_visible(true, offset, first, own, total, visible) + visible,
{
}

/// The viewer as it is painted.
#[derive(Debug)]
pub struct LogSurface {
    pub title: Line,
    pub border: Color,
    /// The color behind everything inside the border.
    pub background: Color,
    pub rows: Vec<Line>,
    /// The first row on screen, to be kept for the next frame.
    pub row_offset: usize,
    pub hint: Line,
    /// Rows that a page turns over.
    pub page: u16,
    /// Columns that lines are wrapped to.
    pub content_width: u16,
}

/// The hint of the viewer.
pub const LOG_HINT: &'static str =
    "Esc close \u{00b7} k/j lines \u{00b7} PgUp/PgDn page \u{00b7} g/G ends \u{00b7} w wrap \u{00b7} / search \u{00b7} y copy";

/// The viewer's last row: the search prompt while a pattern is typed, else the
/// hint, with the count of lines that a pinned view has not taken in.
pub open spec fn log_footer(state: LogViewerState, total: u64, theme: Theme) -> style::LineView {
    match state.search_buf {
        Some(buf) => style::line_of(
            "/"@ + buf@ + "\u{258f} Enter commit \u{00b7} Esc cancel"@,
            style::fg(theme.blue),
        ),
        None => style::line_of(
            LOG_HINT@ + (if total > state.snapshot_total && !state.follows() {
                " \u{00b7} +"@ + text::decimal((total - state.snapshot_total) as nat)
                    + " new lines"@
            } else {
                ""@
            }),
            style::fg(theme.yellow),
        ),
    }
}

fn footer_of(state: &LogViewerState, total: u64, theme: &Theme) -> (r: Line)
    ensures
        r@ == log_footer(*state, total, *theme),
{
    match &state.search_buf {
        Some(buf) => Line::styled(
            text::concat3("/", buf.as_str(), "\u{258f} Enter commit \u{00b7} Esc cancel"),
            Style::new().fg(theme.blue),
        ),
        None => {
            let news = if total > state.snapshot_total && !state.at_tail() {
                let number = text::decimal_string(total - state.snapshot_total);
                text::concat3(" \u{00b7} +", number.as_str(), " new lines")
            } else {
                text::owned("")
            };
            Line::styled(text::concat(LOG_HINT, news.as_str()), Style::new().fg(theme.yellow))
        },
    }
}

fn rows_of_line(
    state: &LogViewerState,
    given: &LogPieces,
    i: usize,
    theme: &Theme,
) -> (r: Vec<Line>)
    requires
        i < state.lines@.len(),
        given.cover(*state),
        state.search matches Some(s) ==> (s.current matches Some(k) ==> k < s.matches@.len()),
    ensures
        style::line_views(r@) == piece_rows(
            *state,
            *given,
            i as int,
            *theme,
            row_count(*state, *given, i as int) as int,
        ),
{
    let entry = &state.lines[i];
    let base = log_line_style(entry, theme);
    let none: Vec<(usize, usize)> = Vec::new();
    let ranges: &Vec<(usize, usize)> = if state.search.is_some() {
        &given.ranges[i]
    } else {
        &none
    };
    assert(ranges@ =~= line_ranges(*state, *given, i as int));
    let current: bool = match &state.search {
        Some(s) => match s.current {
            Some(k) => s.matches[k] == i,
            None => false,
        },
        None => false,
    };
    assert(current == (current_line(*state) == Some(i)));
    let mut rows: Vec<Line> = Vec::new();
    assert(style::line_views(rows@) =~= Seq::empty());
    if !state.wrap {
        broadcast use style::line_views_push;

        let spans = log_line_spans(
            entry.text.as_str(),
            0,
            ranges,
            i == state.cursor,
            current,
            base,
            theme,
        );
        rows.push(Line::from_spans(spans));
        proof {
            reveal_with_fuel(piece_rows, 2);
            assert(style::line_views(rows@) =~= piece_rows(
                *state,
                *given,
                i as int,
                *theme,
                1,
            ));
        }
        return rows;
    }
    let chunks: &Vec<String> = &given.chunks[i];
    let mut offset: usize = 0;
    let mut n: usize = 0;
    proof {
        assert(piece_chars(given.chunks@[i as int]@, given.chunks@[i as int]@.len() as int)
            <= usize::MAX);
    }
    while n < chunks.len()
        invariant
            i < state.lines@.len(),
            state.wrap,
            *chunks == given.chunks@[i as int],
            ranges@ == line_ranges(*state, *given, i as int),
            current == (current_line(*state) == Some(i)),
            base == entry_style(state.lines@[i as int].text@, state.lines@[i as int].level, *theme),
            n <= chunks@.len(),
            offset == piece_chars(chunks@, n as int),
            piece_chars(chunks@, chunks@.len() as int) <= usize::MAX,
            style::line_views(rows@) == piece_rows(
                *state,
                *given,
                i as int,
                *theme,
                n as int,
            ),
        decreases chunks@.len() - n,
    {
        broadcast use style::line_views_push;

        proof {
            lemma_piece_chars_monotone(chunks@, n + 1, chunks@.len() as int);
            assert(text::texts(chunks@)[n as int] == chunks@[n as int]@);
        }
        let spans = log_line_spans(
            chunks[n].as_str(),
            offset,
            ranges,
            i == state.cursor,
            current,
            base,
            theme,
        );
        rows.push(Line::from_spans(spans));
        let chars = text::to_chars(chunks[n].as_str());
        offset += chars.len();
        n += 1;
    }
    rows
}

/// Whether `r` is the viewer in the layout `at`, painted from the pieces `given`;
/// `total` counts the lines that the log ever got.
pub open spec fn shows_log(
    r: LogSurface,
    state: LogViewerState,
    given: LogPieces,
    total: u64,
    at: LogLayout,
    theme: Theme,
) -> bool {
    &&& r.title@ == style::line_of(log_title(state), style::fg(theme.blue).plus(Modifier::Bold))
    &&& r.border == theme.blue
    &&& r.background == theme.bg
    &&& style::line_views(r.rows@) == (if at.content.height == 0 {
        Seq::empty()
    } else {
        log_rows(state, given, theme, state.lines@.len() as int)
    })
    &&& r.row_offset as int == (if at.content.height == 0 || state.lines@.len() == 0 {
        state.row_offset as int
    } else {
        first_visible(
            state.follows(),
            state.row_offset as int,
            rows_before(state, given, state.cursor as int) as int,
            row_count(state, given, state.cursor as int) as int,
            rows_before(state, given, state.lines@.len() as int) as int,
            at.content.height as int,
        )
    })
    &&& r.hint@ == log_footer(state, total, theme)
    &&& r.page == (if at.content.height == 0 {
        1
    } else {
        at.content.height
    })
    &&& r.content_width == row_columns(at)
}

/// The columns that lines are wrapped to, at least one.
pub open spec fn row_columns(at: LogLayout) -> u16 {
    if at.content.width == 0 {
        1
    } else {
        at.content.width
    }
}

/// Builds the viewer in the layout `at`: its lines cut to the width of the view,
/// with the hits of the search lit up; `total` counts the lines that the log ever
/// got.
pub fn render_log_viewer(state: &LogViewerState, total: u64, at: &LogLayout, theme: &Theme) -> (r:
    LogSurface)
    requires
        state.cursor < usize::MAX,
        state.wrap && state.lines@.len() > 0 ==> state.cursor < state.lines@.len(),
        state.search matches Some(s) ==> (s.current matches Some(k) ==> k < s.matches@.len()),
    ensures
        exists|given: LogPieces|
            given.belong(*state, row_columns(*at) as usize) && #[trigger] shows_log(
                r,
                *state,
                given,
                total,
                *at,
                *theme,
            ),
{
    let columns: usize = if at.content.width == 0 {
        1
    } else {
        at.content.width as usize
    };
    let (chunks, hits_of) = log_pieces(state, columns);
    let given = LogPieces { chunks: &chunks, ranges: &hits_of };
    let r = log_surface(state, &given, total, at, theme);
    assert(shows_log(r, *state, given, total, *at, *theme));
    r
}

/// Builds the viewer from the pieces and the search hits of its lines.
pub fn log_surface(
    state: &LogViewerState,
    given: &LogPieces,
    total: u64,
    at: &LogLayout,
    theme: &Theme,
) -> (r: LogSurface)
    requires
        state.cursor < usize::MAX,
        state.wrap && state.lines@.len() > 0 ==> state.cursor < state.lines@.len(),
        given.cover(*state),
        state.search matches Some(s) ==> (s.current matches Some(k) ==> k < s.matches@.len()),
    ensures
        shows_log(r, *state, *given, total, *at, *theme),
{
    let title = title_of(state);
    let hint = footer_of(state, total, theme);
    let mut rows: Vec<Line> = Vec::new();
    let mut row_offset: usize = state.row_offset;
    assert(style::line_views(rows@) =~= Seq::empty());
    if at.content.height > 0 {
        let visible: usize = at.content.height as usize;
        let mut first: usize = 0;
        let mut i: usize = 0;
        while i < state.lines.len()
            invariant
                i <= state.lines@.len(),
                given.cover(*state),
                state.search matches Some(s) ==> (s.current matches Some(k) ==> k
                    < s.matches@.len()),
                style::line_views(rows@) == log_rows(*state, *given, *theme, i as int),
                i > state.cursor ==> first == rows_before(*state, *given, state.cursor as int),
            decreases state.lines@.len() - i,
        {
            broadcast use style::line_views_add;

            if i == state.cursor {
                proof {
                    lemma_log_rows_len(*state, *given, *theme, i as int);
                    assert(style::line_views(rows@).len() == rows@.len());
                }
                first = rows.len();
            }
            let mut own = rows_of_line(state, given, i, theme);
            assert(style::line_views(rows@ + own@) == style::line_views(rows@)
                + style::line_views(own@));
            rows.append(&mut own);
            i += 1;
        }
        let all: usize = rows.len();
        proof {
            lemma_log_rows_len(*state, *given, *theme, state.lines@.len() as int);
            assert(style::line_views(rows@).len() == rows@.len());
        }
        if state.lines.len() > 0 {
            let most: usize = all.saturating_sub(visible);
            if state.at_tail() {
                row_offset = most;
            } else {
                proof {
                    lemma_rows_before_monotone(
                        *state,
                        *given,
                        state.cursor + 1,
                        state.lines@.len() as int,
                    );
                }
                let own: usize = if state.wrap {
                    given.chunks[state.cursor].len()
                } else {
                    1
                };
                let last: usize = first + own.saturating_sub(1);
                if row_offset > most {
                    row_offset = most;
                }
                if row_offset > first {
                    row_offset = first;
                } else if last - row_offset >= visible {
                    row_offset = last - visible + 1;
                }
            }
        }
    }
    let page: u16 = if at.content.height == 0 {
        1
    } else {
        at.content.height
    };
    let content_width: u16 = if at.content.width == 0 {
        1
    } else {
        at.content.width
    };
    LogSurface {
        title: Line::styled(title, Style::new().fg(theme.blue).add_modifier(Modifier::Bold)),
        border: theme.blue,
        background: theme.bg,
        rows,
        row_offset,
        hint,
        page,
        content_width,
    }
}

proof fn lemma_run(flags: Seq<bool>, from: int, to: int)
    requires
        0 <= from < to <= flags.len(),
        forall|i: int| from <= i < to ==> flags[i] == flags[from],
    ensures
        to <= run_end(flags, from, to) <= flags.len(),
        forall|i: int| from <= i < run_end(flags, from, to) ==> #[trigger] flags[i] == flags[from],
    decreases flags.len() - to,
{
    if to < flags.len() && flags[to] == flags[from] {
        lemma_run(flags, from, to + 1);
    }
}

proof fn lemma_pieces_hold(
    chars: Seq<char>,
    flags: Seq<bool>,
    from: int,
    base: Style,
    current: bool,
    theme: Theme,
)
    requires
        0 <= from <= flags.len(),
        chars.len() == flags.len(),
    ensures
        ({
            let cells = wrap::spans_cells(
                pieces(chars, flags, from, base, current, theme),
                style::plain(),
            );
            &&& cells.len() == flags.len() - from
            &&& forall|i: int|
                from <= i < flags.len() ==> (#[trigger] cells[i - from]) == (
                    chars[i],
                    style::plain().patched(piece_style(base, flags[i], current, theme)),
                )
        }),
    decreases flags.len() - from,
{
    let all = pieces(chars, flags, from, base, current, theme);
    if from < flags.len() {
        lemma_run(flags, from, from + 1);
        let end = run_end(flags, from, from + 1);
        let st = piece_style(base, flags[from], current, theme);
        let rest = pieces(chars, flags, end, base, current, theme);
        lemma_pieces_hold(chars, flags, end, base, current, theme);
        lemma_cells_front(style::span(chars.subrange(from, end), st), rest, style::plain());
        let own = wrap::styled_cells(chars.subrange(from, end), style::plain().patched(st));
        let cells = wrap::spans_cells(all, style::plain());
        let below = wrap::spans_cells(rest, style::plain());
        assert(cells == own + below);
        assert forall|i: int| from <= i < flags.len() implies (#[trigger] cells[i - from]) == (
            chars[i],
            style::plain().patched(piece_style(base, flags[i], current, theme)),
        ) by {
            if i < end {
                assert(flags[i] == flags[from]);
            } else {
                assert(cells[i - from] == below[i - end]);
            }
        }
    }
}

proof fn lemma_cells_front(
    first: style::SpanView,
    rest: Seq<style::SpanView>,
    under: Style,
)
    ensures
        wrap::spans_cells(seq![first] + rest, under) == wrap::styled_cells(
            first.content,
            under.patched(first.style),
        ) + wrap::spans_cells(rest, under),
    decreases rest.len(),
{
    let all = seq![first] + rest;
    let own = wrap::styled_cells(first.content, under.patched(first.style));
    if rest.len() == 0 {
        reveal_with_fuel(wrap::spans_cells, 2);
        assert(all.drop_last() =~= Seq::empty());
        assert(wrap::spans_cells(all, under) =~= own);
    } else {
        lemma_cells_front(first, rest.drop_last(), under);
        assert(all.drop_last() =~= seq![first] + rest.drop_last());
        assert(all.last() == rest.last());
        assert(wrap::spans_cells(all, under) =~= own + wrap::spans_cells(rest, under));
    }
}

/// A row of the log shows its characters one by one; those of a hit of the search
/// are bright and bold, reversed where the hit is the current one, and no other
/// is. The cursor's row alone has a background.
pub proof fn law_hits_light_up(
    chunk: Seq<char>,
    start: int,
    ranges: Seq<(usize, usize)>,
    is_cursor: bool,
    is_current: bool,
    base: Style,
    theme: Theme,
    i: int,
)
    requires
        0 <= i < chunk.len(),
        base.bg is None,
        !base.add_modifier.reversed,
    ensures
        ({
            let cells = wrap::spans_cells(
                row_spans(chunk, start, ranges, is_cursor, is_current, base, theme),
                style::plain(),
            );
            let in_hit = exists|k: int|
                0 <= k < ranges.len() && (#[trigger] ranges[k]).0 <= start + i < ranges[k].1;
            &&& cells.len() == chunk.len()
            &&& cells[i].0 == chunk[i]
            &&& in_hit ==> cells[i].1.fg == Some(theme.log_match) && cells[i].1.add_modifier.bold
                && cells[i].1.add_modifier.reversed == is_current
            &&& !in_hit ==> cells[i].1.fg == base.fg && cells[i].1.add_modifier.bold
                == base.add_modifier.bold && !cells[i].1.add_modifier.reversed
            &&& cells[i].1.bg == (if is_cursor {
                Some(theme.selection)
            } else {
                None
            })
        }),
{
    let flags = hits(chunk.len(), start, ranges);
    lemma_pieces_hold(chunk, flags, 0, row_base(base, is_cursor, theme), is_current, theme);
    let cells = wrap::spans_cells(
        row_spans(chunk, start, ranges, is_cursor, is_current, base, theme),
        style::plain(),
    );
    assert(cells[i - 0].0 == chunk[i]);
    assert(flags[i] == hit(ranges, start + i));
}

/// The rows of the log are those of its lines, line after line and piece after
/// piece, none left out.
pub proof fn law_log_shows_every_line(
    state: LogViewerState,
    given: LogPieces,
    theme: Theme,
    i: int,
    n: int,
)
    requires
        0 <= i < n,
    ensures
        ({
            let all = log_rows(state, given, theme, n);
            let own = row_count(state, given, i) as int;
            let at = rows_before(state, given, i) as int;
            &&& all.len() == rows_before(state, given, n)
            &&& at + own <= all.len()
            &&& all.subrange(at, at + own) == piece_rows(state, given, i, theme, own)
            &&& piece_rows(state, given, i, theme, own).len() == own
        }),
    decreases n,
{
    let all = log_rows(state, given, theme, n);
    let front = log_rows(state, given, theme, n - 1);
    let own = row_count(state, given, i) as int;
    let at = rows_before(state, given, i) as int;
    lemma_piece_rows_len(state, given, i, theme, own);
    lemma_log_rows_len(state, given, theme, n);
    lemma_log_rows_len(state, given, theme, n - 1);
    if i < n - 1 {
        law_log_shows_every_line(state, given, theme, i, n - 1);
        assert(all.subrange(at, at + own) =~= front.subrange(at, at + own));
    } else {
        assert(all.subrange(at, at + own) =~= piece_rows(state, given, i, theme, own));
    }
}

/// Without wrap every line is one row that reads as the line.
pub proof fn law_unwrapped_line_is_one_row(
    state: LogViewerState,
    given: LogPieces,
    theme: Theme,
    i: int,
)
    requires
        !state.wrap,
        0 <= i < state.lines@.len(),
    ensures
        row_count(state, given, i) == 1,
        piece_rows(state, given, i, theme, 1)[0].text() == state.lines@[i].text@,
{
    reveal_with_fuel(piece_rows, 2);
    let line = state.lines@[i];
    let row = piece_rows(state, given, i, theme, 1)[0];
    let base = row_base(entry_style(line.text@, line.level, theme), i == state.cursor, theme);
    let found = line_ranges(state, given, i);
    let now = current_line(state) == Some(i as usize);
    let flags = hits(line.text@.len(), 0, found);
    lemma_pieces_hold(line.text@, flags, 0, base, now, theme);
    let spans = row.spans;
    assert(spans == pieces(line.text@, flags, 0, base, now, theme));
    crate::transcript::lemma_cells_text(spans, style::plain());
    let cells = wrap::spans_cells(spans, style::plain());
    assert(crate::transcript::cell_chars(cells) =~= line.text@) by {
        assert forall|k: int| 0 <= k < line.text@.len() implies cells[k].0 == line.text@[k] by {
            assert(cells[k - 0].0 == line.text@[k]);
        }
    }
}

/// A view that shows the cursor's line already stays where it is.
pub proof fn law_view_stays_with_the_cursor(
    offset: int,
    first: int,
    own: int,
    total: int,
    visible: int,
)
    requires
        0 <= offset <= first,
        0 < own,
        first + own <= offset + visible,
        offset + visible <= total,
    ensures
        first_visible(false, offset, first, own, total, visible) == offset,
{
}

/// Where the log follows its end, the last row is the last one in the view.
pub proof fn law_view_follows_the_end(
    offset: int,
    first: int,
    own: int,
    total: int,
    visible: int,
)
    requires
        0 < visible,
        0 <= total,
    ensures
        total >= visible ==> first_visible(true, offset, first, own, total, visible) + visible
            == total,
        total < visible ==> first_visible(true, offset, first, own, total, visible) == 0,
{
}

/// Warnings are yellow, errors red and the critical ones bold; the client's own
/// notes are dim whatever their level.
pub proof fn law_severity_colors(line: Seq<char>, level: Option<LogLevel>, theme: Theme)
    ensures
        "[tui]"@.is_prefix_of(line) ==> entry_style(line, level, theme) == style::fg(theme.dim),
        !"[tui]"@.is_prefix_of(line) ==> {
            let st = entry_style(line, level, theme);
            &&& level == Some(LogLevel::Warning) ==> st.fg == Some(theme.yellow)
            &&& level == Some(LogLevel::Error) ==> st.fg == Some(theme.red)
                && !st.add_modifier.bold
            &&& level == Some(LogLevel::Critical) ==> st.fg == Some(theme.red)
                && st.add_modifier.bold
            &&& level == Some(LogLevel::Info) || level == Some(LogLevel::Success) ==> st.fg
                == Some(theme.green)
            &&& level == Some(LogLevel::Trace) ==> st.fg == Some(theme.log_trace)
            &&& level == Some(LogLevel::Debug) ==> st.fg == Some(theme.log_debug)
            &&& level == Some(LogLevel::Tool) || level == Some(LogLevel::Delegate) ==> st.fg
                == Some(theme.blue)
            &&& level == Some(LogLevel::Think) || level == Some(LogLevel::Call) ==> st.fg == Some(
                theme.purple,
            )
            &&& level == Some(LogLevel::Check) || level == Some(LogLevel::Moderator) ==> st.fg
                == Some(theme.red)
            &&& level == Some(LogLevel::Subagent) ==> st.fg == Some(theme.cyan)
            &&& level is None ==> st.fg == Some(theme.fg)
        },
{
}

/// The log's area takes three quarters of the frame's height and nearly all of its
/// width, up to a hundred and ten columns.
pub proof fn law_log_area(frame: Rect)
    requires
        frame.fits(),
        frame.width >= 24,
        frame.height >= 8,
    ensures
        frame.width <= 114 ==> log_area(frame).width == frame.width - 4,
        frame.width > 114 ==> log_area(frame).width == 110,
        log_area(frame).height == (frame.height * 3) / 4,
{
}

/// The title counts the cursor's line from one and tells whether the log follows
/// its end and wraps its lines.
pub proof fn law_log_title_tells(state: LogViewerState)
    requires
        state.cursor < state.lines@.len(),
        state.search_buf is None,
        state.search is None,
        state.copy_note is None,
    ensures
        log_title(state) == " Diagnostics log \u{00b7} line "@ + text::decimal(
            (state.cursor + 1) as nat,
        ) + ("/"@ + text::decimal(state.lines@.len())) + ((if state.cursor + 1
            == state.lines@.len() {
            " \u{00b7} live"@
        } else {
            " \u{00b7} pinned"@
        }) + (if state.wrap {
            " \u{00b7} wrap: on"@
        } else {
            " \u{00b7} wrap: off"@
        })),
{
    reveal_strlit("");
    assert(""@ =~= Seq::empty());
    let whole = log_title(state);
    let goal = " Diagnostics log \u{00b7} line "@ + text::decimal((state.cursor + 1) as nat) + (
    "/"@ + text::decimal(state.lines@.len())) + ((if state.cursor + 1 == state.lines@.len() {
        " \u{00b7} live"@
    } else {
        " \u{00b7} pinned"@
    }) + (if state.wrap {
        " \u{00b7} wrap: on"@
    } else {
        " \u{00b7} wrap: off"@
    }));
    assert(whole =~= goal);
}

/// A log that follows its end takes over new lines with the cursor on the newest;
/// a pinned one stays.
pub proof fn law_following_log_takes_new_lines(
    state: &mut LogViewerState,
    lines: Vec<LogEntry>,
    total: u64,
)
    requires
        call_ensures(LogViewerState::refresh, (state, lines, total), ()),
        0 < lines@.len() <= usize::MAX,
    ensures
        old(state).cursor + 1 < old(state).lines@.len() ==> *final(state) == *old(state),
        old(state).cursor + 1 >= old(state).lines@.len() ==> {
            &&& final(state).lines == lines
            &&& final(state).cursor == lines@.len() - 1
            &&& final(state).snapshot_total == total
            &&& final(state).wrap == old(state).wrap
        },
{
}

/// The footer of the log is its prompt while one is open, else its hint, with the
/// number of new lines where a pinned log got some.
pub proof fn law_log_footer(state: LogViewerState, total: u64, theme: Theme)
    ensures
        state.search_buf matches Some(buf) ==> log_footer(state, total, theme).spans[0].content
            == "/"@ + buf@ + "\u{258f} Enter commit \u{00b7} Esc cancel"@,
        state.search_buf is None && (total <= state.snapshot_total || state.follows())
            ==> log_footer(state, total, theme).spans[0].content == LOG_HINT@,
        state.search_buf is None && total > state.snapshot_total && !state.follows() ==> log_footer(
            state,
            total,
            theme,
        ).spans[0].content == LOG_HINT@ + (" \u{00b7} +"@ + text::decimal(
            (total - state.snapshot_total) as nat,
        ) + " new lines"@),
{
    reveal_strlit("");
    assert(LOG_HINT@ + ""@ =~= LOG_HINT@);
}

/// Under wrap a line takes a row for each of its pieces, and each reads as its
/// piece.
pub proof fn law_wrapped_rows_read(
    state: LogViewerState,
    given: LogPieces,
    theme: Theme,
    i: int,
    k: int,
    n: int,
)
    requires
        state.wrap,
        0 <= k < n <= given.chunks@[i]@.len(),
    ensures
        row_count(state, given, i) == given.chunks@[i]@.len(),
        piece_rows(state, given, i, theme, n).len() == n,
        piece_rows(state, given, i, theme, n)[k].text() == given.chunks@[i]@[k]@,
    decreases n,
{
    lemma_piece_rows_len(state, given, i, theme, n);
    lemma_piece_rows_len(state, given, i, theme, n - 1);
    if k < n - 1 {
        law_wrapped_rows_read(state, given, theme, i, k, n - 1);
    } else {
        let line = state.lines@[i];
        let own = given.chunks@[i]@[k]@;
        let row = piece_rows(state, given, i, theme, n)[k];
        let base = row_base(entry_style(line.text@, line.level, theme), i == state.cursor, theme);
        let from = piece_chars(given.chunks@[i]@, n - 1) as int;
        let found = line_ranges(state, given, i);
        let now = current_line(state) == Some(i as usize);
        let flags = hits(own.len(), from, found);
        assert(text::texts(given.chunks@[i]@)[k] == own);
        lemma_pieces_hold(own, flags, 0, base, now, theme);
        assert(row.spans == pieces(own, flags, 0, base, now, theme));
        crate::transcript::lemma_cells_text(row.spans, style::plain());
        let cells = wrap::spans_cells(row.spans, style::plain());
        assert(crate::transcript::cell_chars(cells) =~= own) by {
            assert forall|j: int| 0 <= j < own.len() implies cells[j].0 == own[j] by {
                assert(cells[j - 0].0 == own[j]);
            }
        }
    }
}

/// The pieces of each line make up the line, and its marks stand where the line
/// reads the pattern of the search, at every such place.
pub proof fn law_pieces_make_up_the_lines(
    state: LogViewerState,
    given: LogPieces,
    columns: usize,
    i: int,
    k: int,
)
    requires
        given.belong(state, columns),
        0 <= i < state.lines@.len(),
    ensures
        text::texts(given.chunks@[i]@).flatten() == state.lines@[i].text@,
        state.search matches Some(s) ==> s.pattern@.len() > 0 && find::reads(
            state.lines@[i].text@,
            s.pattern@,
            k,
        ) ==> hit(given.ranges@[i]@, k),
        state.search is None ==> given.ranges@[i]@.len() == 0,
{
    let line = state.lines@[i].text@;
    let marks = given.ranges@[i]@;
    wrap::law_hard_wrap_keeps_text(line, columns as int);
    assert(text::texts(given.chunks@[i]@) == wrap::hard_wrapped(line, columns as int));
    assert(wrap::ranges(marks) == find::line_hits(line, pattern_of(state)));
    assert(wrap::ranges(marks).len() == marks.len());
    if state.search is Some && state.search->0.pattern@.len() > 0 && find::reads(
        line,
        state.search->0.pattern@,
        k,
    ) {
        let pattern = state.search->0.pattern@;
        find::law_hits_are_all(line, pattern);
        let all = find::line_hits(line, pattern);
        let j = choose|j: int| 0 <= j < all.len() && (#[trigger] all[j]).0 <= k < all[j].1;
        assert(wrap::ranges(marks)[j] == all[j]);
        assert(marks[j].0 <= k < marks[j].1);
    }
}

/// The viewer computes what it shows from the log alone: every row, the first one
/// on screen, its title and its footer.
pub proof fn law_viewer_shows_the_log(
    state: &LogViewerState,
    total: u64,
    at: &LogLayout,
    theme: &Theme,
    r: LogSurface,
)
    requires
        call_ensures(render_log_viewer, (state, total, at, theme), r),
        !state.wrap,
        at.content.height > 0,
    ensures
        r.rows@.len() == state.lines@.len(),
        forall|i: int|
            0 <= i < state.lines@.len() ==> (#[trigger] r.rows@[i])@.text() == state.lines@[i].text@,
{
    let given = choose|given: LogPieces|
        given.belong(*state, row_columns(*at) as usize) && #[trigger] shows_log(
            r,
            *state,
            given,
            total,
            *at,
            *theme,
        );
    let n = state.lines@.len() as int;
    let all = log_rows(*state, given, *theme, n);
    lemma_log_rows_len(*state, given, *theme, n);
    lemma_one_row_each(*state, given, n);
    assert(style::line_views(r.rows@).len() == r.rows@.len());
    assert forall|i: int| 0 <= i < n implies (#[trigger] r.rows@[i])@.text()
        == state.lines@[i].text@ by {
        law_log_shows_every_line(*state, given, *theme, i, n);
        lemma_one_row_each(*state, given, i);
        law_unwrapped_line_is_one_row(*state, given, *theme, i);
        assert(all.subrange(i, i + 1)[0] == all[i]);
        assert(style::line_views(r.rows@)[i] == r.rows@[i]@);
    }
}

proof fn lemma_one_row_each(state: LogViewerState, given: LogPieces, n: int)
    requires
        !state.wrap,
        0 <= n,
    ensures
        rows_before(state, given, n) == n,
    decreases n,
{
    if n > 0 {
        lemma_one_row_each(state, given, n - 1);
    }
}

/// Under wrap a hit lights up where it stands in its line, whichever piece shows
/// it: the characters of a piece count on from those of the pieces before.
pub proof fn law_hits_go_on_over_pieces(
    state: LogViewerState,
    given: LogPieces,
    theme: Theme,
    i: int,
    n: int,
    j: int,
)
    requires
        state.wrap,
        state.search is Some,
        0 < n <= given.chunks@[i]@.len(),
        0 <= j < given.chunks@[i]@[n - 1]@.len(),
    ensures
        ({
            let row = piece_rows(state, given, i, theme, n).last();
            let cells = wrap::spans_cells(row.spans, style::plain());
            let place = text::texts(given.chunks@[i]@).take(n - 1).flatten_alt().len() + j;
            let lit = exists|k: int|
                0 <= k < given.ranges@[i]@.len() && (#[trigger] given.ranges@[i]@[k]).0 <= place
                    < given.ranges@[i]@[k].1;
            &&& cells.len() == given.chunks@[i]@[n - 1]@.len()
            &&& lit ==> cells[j].1.fg == Some(theme.log_match)
            &&& !lit ==> cells[j].1.fg == entry_style(
                state.lines@[i].text@,
                state.lines@[i].level,
                theme,
            ).fg
            &&& cells[j].1.bg == (if i == state.cursor {
                Some(theme.selection)
            } else {
                None
            })
        }),
{
    let chunks = given.chunks@[i]@;
    let line = state.lines@[i];
    assert(text::texts(chunks)[n - 1] == chunks[n - 1]@);
    lemma_piece_chars(chunks, n - 1);
    law_hits_light_up(
        chunks[n - 1]@,
        piece_chars(chunks, n - 1) as int,
        given.ranges@[i]@,
        i == state.cursor,
        current_line(state) == Some(i as usize),
        entry_style(line.text@, line.level, theme),
        theme,
        j,
    );
}

/// The title counts the hits of a search, and the current one from one on.
pub proof fn law_hits_are_counted(search: LogSearch)
    ensures
        search.current is None ==> matches_note(search) == " \u{00b7} matches: "@ + text::decimal(
            search.matches@.len(),
        ),
        search.current matches Some(i) ==> matches_note(search) == " \u{00b7} matches: "@
            + text::decimal((i + 1) as nat) + ("/"@ + text::decimal(search.matches@.len())),
{
}

/// The current line of a search is the line of its current hit.
pub proof fn law_current_line_is_the_hits(state: LogViewerState)
    ensures
        state.search is None ==> current_line(state) is None,
        state.search matches Some(s) ==> (s.current is None ==> current_line(state) is None) && (
        s.current matches Some(i) ==> current_line(state) == Some(s.matches@[i as int])),
        state.follows() <==> (state.lines@.len() == 0 || state.cursor >= state.lines@.len() - 1),
{
}

} // verus!
