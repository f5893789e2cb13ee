//! One-line surfaces: message headers, the reasoning block, the spinner line,
//! the status line, the rename line, the input block and the scroll hint.

use vstd::prelude::*;
use crate::app::{Connection, Focus};
use crate::live::clean;
use crate::model::ChatLifecycle;
use crate::style::{Color, Line, Modifier, Rect, Span, Style};
use crate::theme::Theme;
use crate::ui::layout;
use crate::width::{str_width, str_width_u16};
use crate::{live, style, text, theme, width};

verus! {

/// The marker before typed text.
pub const PROMPT_MARKER: &'static str = "\u{276f} ";

/// Columns of [`PROMPT_MARKER`].
pub const PROMPT_MARKER_WIDTH: u16 = 2;

/// The header of an answer: the name, and the model's label where there is one.
pub open spec fn answer_header(label: Option<Seq<char>>, theme: Theme) -> style::LineView {
    let name = style::span("\u{25cf} Chibi"@, style::fg(theme.blue).plus(Modifier::Bold));
    style::line(
        match live::clean_label(label) {
            Some(l) => seq![name, style::span(" ("@ + l + ")"@, style::fg(theme.dim))],
            None => seq![name],
        },
    )
}

/// The header of an answer. A label of white space alone is no label.
pub fn assistant_header_line(model_label: Option<&str>, theme: &Theme) -> (r: Line)
    ensures
        r@ == answer_header(text::optional_str(model_label), *theme),
{
    broadcast use style::span_views_push;

    let mut spans: Vec<Span> = Vec::new();
    spans.push(
        Span::styled(
            text::owned("\u{25cf} Chibi"),
            Style::new().fg(theme.blue).add_modifier(Modifier::Bold),
        ),
    );
    match clean(model_label) {
        Some(l) => {
            spans.push(
                Span::styled(text::concat3(" (", l.as_str(), ")"), Style::new().fg(theme.dim)),
            );
        },
        None => {},
    }
    assert(style::span_views(spans@) =~= answer_header(
        text::optional_str(model_label),
        *theme,
    ).spans);
    Line::from_spans(spans)
}

/// How many lines of a reasoning trace are shown: the last ones.
pub const THOUGHTS_DISPLAY_LINES: usize = 10;

/// The first line of a trace of `total` lines that is shown.
pub open spec fn first_shown(total: int) -> int {
    layout::less(total, THOUGHTS_DISPLAY_LINES as int)
}

/// The reasoning block: the last lines of the trace, dim, with an ellipsis
/// where lines before them are not shown.
pub open spec fn thoughts_block(thoughts: Seq<char>, theme: Theme) -> Seq<style::LineView> {
    let all = text::lines(thoughts);
    let first = first_shown(all.len() as int);
    Seq::new(
        (all.len() - first) as nat,
        |i: int|
            style::line_of(
                if i == 0 && first > 0 {
                    "\u{2026}"@ + all[first]
                } else {
                    all[first + i]
                },
                style::fg(theme.dim),
            ),
    )
}

/// Builds the reasoning block.
pub fn thoughts_block_lines(thoughts: &str, theme: &Theme) -> (r: Vec<Line>)
    ensures
        style::line_views(r@) == thoughts_block(thoughts@, *theme),
{
    let all = text::lines_of(thoughts);
    let first: usize = all.len().saturating_sub(THOUGHTS_DISPLAY_LINES);
    let ghost goal = thoughts_block(thoughts@, *theme);
    let mut out: Vec<Line> = Vec::new();
    let mut i: usize = first;
    while i < all.len()
        invariant
            text::texts(all@) == text::lines(thoughts@),
            goal == thoughts_block(thoughts@, *theme),
            first == first_shown(all@.len() as int),
            first <= i <= all@.len(),
            style::line_views(out@) == goal.take(i - first),
        decreases all@.len() - i,
    {
        broadcast use style::line_views_push;

        assert(text::texts(all@)[i as int] == all@[i as int]@);
        let shown = if i == first && first > 0 {
            text::concat("\u{2026}", all[i].as_str())
        } else {
            text::owned(all[i].as_str())
        };
        out.push(Line::styled(shown, Style::new().fg(theme.dim)));
        i += 1;
        assert(goal.take(i - first) =~= goal.take(i - 1 - first).push(goal[i - 1 - first]));
    }
    assert(goal.take(i - first) =~= goal);
    out
}

/// The count of live subagents.
pub open spec fn subagent_note(active: u64) -> Seq<char> {
    " \u{00b7} subagents working: "@ + text::decimal(active as nat)
}

fn subagent_text(active: u64) -> (r: String)
    ensures
        r@ == subagent_note(active),
{
    let number = text::decimal_string(active);
    text::concat(" \u{00b7} subagents working: ", number.as_str())
}

/// The line above the input: what the active chat is doing. The subagent count
/// does not depend on the request: an idle chat with live subagents shows the
/// count alone.
pub open spec fn spinner_line(
    lifecycle: ChatLifecycle,
    subagents: Option<u64>,
    spinner: char,
    theme: Theme,
) -> Option<style::LineView> {
    let note = match subagents {
        Some(n) => subagent_note(n),
        None => ""@,
    };
    match lifecycle {
        ChatLifecycle::Idle => match subagents {
            Some(n) => Some(style::line_of(subagent_note(n), style::fg(theme.green))),
            None => None,
        },
        ChatLifecycle::Awaiting { .. } => Some(
            style::line_of(
                " "@.push(spinner) + " queued\u{2026}"@ + note,
                style::fg(theme.yellow),
            ),
        ),
        ChatLifecycle::Running { .. } => Some(
            style::line_of(
                " "@.push(spinner) + " thinking\u{2026}"@ + note,
                style::fg(theme.purple),
            ),
        ),
    }
}

/// Builds the spinner line; `None` where there is nothing to show.
pub fn render_spinner_line(
    lifecycle: &ChatLifecycle,
    subagents: Option<u64>,
    spinner: char,
    theme: &Theme,
) -> (r: Option<Line>)
    ensures
        match r {
            Some(line) => spinner_line(*lifecycle, subagents, spinner, *theme) == Some(line@),
            None => spinner_line(*lifecycle, subagents, spinner, *theme) is None,
        },
{
    let note = match subagents {
        Some(n) => subagent_text(n),
        None => text::owned(""),
    };
    let mut head = text::owned(" ");
    head.push(spinner);
    match lifecycle {
        ChatLifecycle::Idle => match subagents {
            Some(_) => Some(Line::styled(note, Style::new().fg(theme.green))),
            None => None,
        },
        ChatLifecycle::Awaiting { .. } => Some(
            Line::styled(
                text::concat3(head.as_str(), " queued\u{2026}", note.as_str()),
                Style::new().fg(theme.yellow),
            ),
        ),
        ChatLifecycle::Running { .. } => Some(
            Line::styled(
                text::concat3(head.as_str(), " thinking\u{2026}", note.as_str()),
                Style::new().fg(theme.purple),
            ),
        ),
    }
}

/// The label of a connection state.
pub open spec fn connection_label(connection: Connection) -> Seq<char> {
    match connection {
        Connection::Connected => "\u{25cf} connected"@,
        Connection::Connecting => "\u{25cf} connecting\u{2026}"@,
        Connection::Disconnected => "\u{25cf} disconnected (press R)"@,
    }
}

/// The color of a connection state: always from the one accent palette.
pub open spec fn connection_color(connection: Connection) -> Color {
    match connection {
        Connection::Connected => theme::tokyo_night().green,
        Connection::Connecting => theme::tokyo_night().yellow,
        Connection::Disconnected => theme::tokyo_night().red,
    }
}

/// Label and color of a connection state.
pub fn connection_status(connection: Connection) -> (r: (&'static str, Color))
    ensures
        r.0@ == connection_label(connection),
        r.1 == connection_color(connection),
{
    let accents = Theme::tokyo_night();
    match connection {
        Connection::Connected => ("\u{25cf} connected", accents.green),
        Connection::Connecting => ("\u{25cf} connecting\u{2026}", accents.yellow),
        Connection::Disconnected => ("\u{25cf} disconnected (press R)", accents.red),
    }
}

/// The hints that the status line always shows.
pub const HINTS: &'static str =
    "   ^/\u{2325}\u{2191}\u{2193} chats \u{00b7} ^N \u{00b7} ^R \u{00b7} ^C cancel \u{00b7} ^D \u{00b7} ^F \u{00b7} ^\u{21e7}F \u{00b7} ^T \u{00b7} ^O \u{00b7} F1 help";

/// What the status line depends on.
#[derive(Clone, Copy, Debug)]
pub struct StatusFacts<'a> {
    pub connection: Connection,
    /// A transient message, shown in place of the hints.
    pub message: Option<&'a str>,
    /// Whether the backend offers to clone a thread.
    pub clone_supported: bool,
    /// Whether no surface but the editor owns the keyboard.
    pub normal_mode: bool,
    pub thoughts_visible: bool,
    /// How many diagnostics lines there ever were.
    pub log_total: u64,
    /// How many of them the user has seen.
    pub log_seen: u64,
}

/// The optional tokens of the status line.
pub open spec fn status_tokens(facts: StatusFacts, theme: Theme) -> Seq<style::SpanView> {
    (if facts.clone_supported {
        seq![style::span(" \u{00b7} ^P"@, style::fg(theme.selection))]
    } else {
        seq![]
    }) + (if facts.normal_mode {
        seq![
            style::span(
                " \u{00b7} ^S "@ + (if facts.thoughts_visible {
                    "on"@
                } else {
                    "off"@
                }),
                style::fg(theme.dim),
            ),
        ]
    } else {
        seq![]
    }) + (if facts.normal_mode && facts.log_total > facts.log_seen {
        seq![style::span(" \u{00b7} log*"@, style::fg(theme.dim))]
    } else {
        seq![]
    })
}

/// The status line: the transient message or the hints, then the connection.
pub open spec fn status_line(facts: StatusFacts, theme: Theme) -> style::LineView {
    let link = seq![
        style::span("  "@, style::plain()),
        style::span(
            connection_label(facts.connection),
            style::fg(connection_color(facts.connection)),
        ),
    ];
    style::line(
        match facts.message {
            Some(m) => seq![style::span("  "@ + m@, style::fg(theme.yellow))] + link,
            None => seq![style::span(HINTS@, style::fg(theme.selection))] + status_tokens(
                facts,
                theme,
            ) + link,
        },
    )
}

/// The status line as it is painted.
#[derive(Debug)]
pub struct StatusSurface {
    pub line: Line,
    /// The color behind the whole row.
    pub background: Color,
}

/// Builds the status line.
pub fn render_status(facts: &StatusFacts, theme: &Theme) -> (r: StatusSurface)
    ensures
        r.line@ == status_line(*facts, *theme),
        r.background == theme.panel,
{
    broadcast use style::span_views_push;

    let (label, color) = connection_status(facts.connection);
    let mut spans: Vec<Span> = Vec::new();
    match facts.message {
        Some(m) => {
            spans.push(Span::styled(text::concat("  ", m), Style::new().fg(theme.yellow)));
        },
        None => {
            spans.push(Span::styled(text::owned(HINTS), Style::new().fg(theme.selection)));
            if facts.clone_supported {
                spans.push(
                    Span::styled(text::owned(" \u{00b7} ^P"), Style::new().fg(theme.selection)),
                );
            }
            if facts.normal_mode {
                let state = if facts.thoughts_visible {
                    "on"
                } else {
                    "off"
                };
                spans.push(
                    Span::styled(
                        text::concat(" \u{00b7} ^S ", state),
                        Style::new().fg(theme.dim),
                    ),
                );
            }
            if facts.normal_mode && facts.log_total > facts.log_seen {
                spans.push(
                    Span::styled(text::owned(" \u{00b7} log*"), Style::new().fg(theme.dim)),
                );
            }
        },
    }
    spans.push(Span::raw(text::owned("  ")));
    spans.push(Span::styled(text::owned(label), Style::new().fg(color)));
    assert(style::span_views(spans@) =~= status_line(*facts, *theme).spans);
    StatusSurface { line: Line::from_spans(spans), background: theme.panel }
}

/// A status line without a message never exceeds one row of
/// 120 columns, one character to a column.
pub proof fn law_hint_row_fits(facts: StatusFacts, theme: Theme)
    requires
        facts.message is None,
    ensures
        status_line(facts, theme).text().len() <= 120,
{
    reveal_strlit(
        "   ^/\u{2325}\u{2191}\u{2193} chats \u{00b7} ^N \u{00b7} ^R \u{00b7} ^C cancel \u{00b7} ^D \u{00b7} ^F \u{00b7} ^\u{21e7}F \u{00b7} ^T \u{00b7} ^O \u{00b7} F1 help",
    );
    reveal_strlit(" \u{00b7} ^P");
    reveal_strlit(" \u{00b7} ^S ");
    reveal_strlit("on");
    reveal_strlit("off");
    reveal_strlit(" \u{00b7} log*");
    reveal_strlit("  ");
    reveal_strlit("\u{25cf} connected");
    reveal_strlit("\u{25cf} connecting\u{2026}");
    reveal_strlit("\u{25cf} disconnected (press R)");
    let line = status_line(facts, theme);
    let tokens = status_tokens(facts, theme);
    let hints = style::span(HINTS@, style::fg(theme.selection));
    let link = line.spans.skip(line.spans.len() - 2);
    assert(line.spans =~= seq![hints] + tokens + link);
    lemma_spans_len_add(seq![hints] + tokens, link);
    lemma_spans_len_add(seq![hints], tokens);
    reveal_with_fuel(style::spans_text, 5);
    assert(seq![hints].drop_last() =~= Seq::empty());
    assert(link.drop_last().drop_last() =~= Seq::empty());
    lemma_tokens_len(facts, theme);
}

proof fn lemma_tokens_len(facts: StatusFacts, theme: Theme)
    ensures
        style::spans_text(status_tokens(facts, theme)).len() <= 21,
{
    reveal_strlit(" \u{00b7} ^P");
    reveal_strlit(" \u{00b7} ^S ");
    reveal_strlit("on");
    reveal_strlit("off");
    reveal_strlit(" \u{00b7} log*");
    let t = status_tokens(facts, theme);
    reveal_with_fuel(style::spans_text, 4);
    if t.len() >= 1 {
        assert(t.drop_last().len() == t.len() - 1);
        if t.len() >= 2 {
            assert(t.drop_last().last() == t[t.len() - 2]);
            if t.len() >= 3 {
                assert(t.drop_last().drop_last().last() == t[t.len() - 3]);
                assert(t.drop_last().drop_last().drop_last() =~= Seq::empty());
            } else {
                assert(t.drop_last().drop_last() =~= Seq::empty());
            }
        } else {
            assert(t.drop_last() =~= Seq::empty());
        }
    }
}

proof fn lemma_spans_len_add(a: Seq<style::SpanView>, b: Seq<style::SpanView>)
    ensures
        style::spans_text(a + b).len() == style::spans_text(a).len() + style::spans_text(b).len(),
    decreases b.len(),
{
    if b.len() == 0 {
        assert(a + b =~= a);
    } else {
        assert((a + b).drop_last() =~= a + b.drop_last());
        lemma_spans_len_add(a, b.drop_last());
    }
}

/// What the rename line shows before the draft.
pub const RENAME_LABEL: &'static str = "\u{270e} Rename thread\u{2026} ";

/// What the rename line shows at its right end.
pub const RENAME_HINT: &'static str = "\u{23ce} save \u{00b7} esc cancel ";

/// The blanks between draft and hint on a rename line of `area_width` columns.
pub open spec fn rename_gap(area_width: u16, head: Seq<char>) -> nat {
    let used = PROMPT_MARKER_WIDTH + width::columns(RENAME_LABEL@) + width::columns(head);
    let usable = layout::less(area_width as int, (width::columns(RENAME_HINT@) % 65536) as int);
    layout::less(
        usable,
        if used > u16::MAX {
            u16::MAX as int
        } else {
            used
        },
    ) as nat
}

/// The rename editor: the label, the draft's first line and the hint on the
/// first row, the draft's other lines below.
pub open spec fn rename_lines(draft: Seq<char>, area_width: u16, theme: Theme) -> Seq<
    style::LineView,
> {
    let parts = text::split(draft, '\n');
    seq![
        style::line(
            seq![
                style::span(PROMPT_MARKER@, style::fg(theme.cyan)),
                style::span(RENAME_LABEL@, style::fg(theme.yellow)),
                style::span(parts[0], style::fg(theme.fg)),
                style::span(
                    text::repeated(' ', rename_gap(area_width, parts[0])),
                    style::plain(),
                ),
                style::span(RENAME_HINT@, style::fg(theme.selection)),
            ],
        ),
    ] + Seq::new(
        (parts.len() - 1) as nat,
        |i: int| style::line_of(parts[i + 1], style::fg(theme.fg)),
    )
}

/// The rename editor as it is painted.
#[derive(Debug)]
pub struct RenameSurface {
    pub rows: Vec<Line>,
    /// The color behind the whole editor.
    pub background: Color,
}

/// Builds the rename editor's rows.
pub fn render_rename_line(draft: &str, area_width: u16, theme: &Theme) -> (r: RenameSurface)
    ensures
        style::line_views(r.rows@) == rename_lines(draft@, area_width, *theme),
        r.background == theme.input_panel_bg,
{
    broadcast use {style::span_views_push, style::line_views_push};

    let ghost goal = rename_lines(draft@, area_width, *theme);
    let parts = text::split_on(draft, '\n');
    proof {
        text::lemma_split_nonempty(draft@, '\n');
        assert(text::texts(parts@)[0] == parts@[0]@);
    }
    let taken: usize = str_width(RENAME_LABEL).saturating_add(
        str_width(parts[0].as_str()),
    ).saturating_add(PROMPT_MARKER_WIDTH as usize);
    let used: usize = if taken > 65535 {
        65535
    } else {
        taken
    };
    let usable: u16 = area_width.saturating_sub(str_width_u16(RENAME_HINT));
    let gap: usize = (usable as usize).saturating_sub(used);
    let mut spans: Vec<Span> = Vec::new();
    spans.push(Span::styled(text::owned(PROMPT_MARKER), Style::new().fg(theme.cyan)));
    spans.push(Span::styled(text::owned(RENAME_LABEL), Style::new().fg(theme.yellow)));
    spans.push(Span::styled(text::owned(parts[0].as_str()), Style::new().fg(theme.fg)));
    spans.push(Span::raw(text::repeat(' ', gap)));
    spans.push(Span::styled(text::owned(RENAME_HINT), Style::new().fg(theme.selection)));
    assert(style::span_views(spans@) =~= goal[0].spans);
    let mut lines: Vec<Line> = Vec::new();
    lines.push(Line::from_spans(spans));
    assert(style::line_views(lines@) =~= goal.take(1));
    let mut i: usize = 1;
    while i < parts.len()
        invariant
            text::texts(parts@) == text::split(draft@, '\n'),
            goal == rename_lines(draft@, area_width, *theme),
            1 <= i <= parts@.len(),
            style::line_views(lines@) == goal.take(i as int),
        decreases parts@.len() - i,
    {
        broadcast use style::line_views_push;

        assert(text::texts(parts@)[i as int] == parts@[i as int]@);
        lines.push(Line::styled(text::owned(parts[i].as_str()), Style::new().fg(theme.fg)));
        i += 1;
        assert(goal.take(i as int) =~= goal.take(i - 1).push(goal[i - 1]));
    }
    assert(goal.take(i as int) =~= goal);
    RenameSurface { rows: lines, background: theme.input_panel_bg }
}

/// The chip at the right end of the input block.
pub const SEND_LABEL: &'static str = "\u{23ce} send ";

/// What an empty input block shows.
pub const INPUT_PLACEHOLDER: &'static str = "Type a message\u{2026}";

/// The input block.
#[derive(Debug)]
pub enum InputSurface {
    /// No draft: one line with the marker, the placeholder and the chip.
    Blank {
        line: Line,
        /// The color behind the whole block.
        background: Color,
    },
    /// A draft: where its parts go.
    Draft {
        /// The marker, on the first row.
        marker: Line,
        marker_area: Option<Rect>,
        /// Where the text goes.
        text_area: Option<Rect>,
        /// The chip, on the first row too.
        chip: Line,
        chip_area: Option<Rect>,
        /// The color behind the whole block.
        background: Color,
    },
}

/// The marker's color: dim while the chat list holds the keyboard.
pub open spec fn marker_color(focus: Focus, theme: Theme) -> Color {
    if focus == Focus::Sidebar {
        theme.dim
    } else {
        theme.cyan
    }
}

/// The line of an empty input block of `columns` columns.
pub open spec fn blank_input(columns: u16, focus: Focus, theme: Theme) -> style::LineView {
    let taken = PROMPT_MARKER_WIDTH + width::columns(INPUT_PLACEHOLDER@) % 65536 + width::columns(
        SEND_LABEL@,
    ) % 65536;
    style::line(
        seq![
            style::span(PROMPT_MARKER@, style::fg(marker_color(focus, theme))),
            style::span(INPUT_PLACEHOLDER@, style::fg(theme.dim)),
            style::span(
                text::repeated(' ', layout::less(columns as int, taken) as nat),
                style::plain(),
            ),
            style::span(SEND_LABEL@, style::fg(theme.selection)),
        ],
    )
}

/// Whether any line of a draft holds text.
pub open spec fn has_text(draft: Seq<Seq<char>>) -> bool {
    exists|i: int| 0 <= i < draft.len() && (#[trigger] draft[i]).len() > 0
}

/// Where the marker goes in the chat column.
pub open spec fn marker_area_of(column: Rect) -> Option<Rect> {
    if column.width == 0 {
        None
    } else {
        Some(
            Rect {
                x: column.x,
                y: column.y,
                width: if column.width < PROMPT_MARKER_WIDTH {
                    column.width
                } else {
                    PROMPT_MARKER_WIDTH
                },
                height: 1,
            },
        )
    }
}

/// Where the text goes in the chat column: right of the marker, on every row.
pub open spec fn text_area_of(column: Rect) -> Option<Rect> {
    if column.width > PROMPT_MARKER_WIDTH && column.height > 0 {
        Some(
            Rect {
                x: (column.x + PROMPT_MARKER_WIDTH) as u16,
                y: column.y,
                width: (column.width - PROMPT_MARKER_WIDTH) as u16,
                height: column.height,
            },
        )
    } else {
        None
    }
}

/// Where the chip goes in the chat column: at the right end of the first row,
/// where the block has more than one.
pub open spec fn chip_area_of(column: Rect) -> Option<Rect> {
    let chip = (width::columns(SEND_LABEL@) % 65536) as u16;
    if column.height > 1 && column.width > chip {
        Some(
            Rect {
                x: (column.x + column.width - chip) as u16,
                y: column.y,
                width: chip,
                height: 1,
            },
        )
    } else {
        None
    }
}

/// Lays out the input block in the chat column.
pub fn render_input(draft: &Vec<String>, focus: Focus, chat_column: Rect, theme: &Theme) -> (r:
    InputSurface)
    requires
        chat_column.fits(),
    ensures
        r is Blank <==> !has_text(text::texts(draft@)),
        match r {
            InputSurface::Blank { line, background } => {
                &&& line@ == blank_input(chat_column.width, focus, *theme)
                &&& background == theme.input_panel_bg
            },
            InputSurface::Draft { marker, marker_area, text_area, chip, chip_area, background } => {
                &&& marker@ == style::line_of(
                    PROMPT_MARKER@,
                    style::fg(marker_color(focus, *theme)),
                )
                &&& marker_area == marker_area_of(chat_column)
                &&& text_area == text_area_of(chat_column)
                &&& chip@ == style::line_of(SEND_LABEL@, style::fg(theme.selection))
                &&& chip_area == chip_area_of(chat_column)
                &&& background == theme.input_panel_bg
            },
        },
{
    broadcast use style::span_views_push;

    let color = match focus {
        Focus::Sidebar => theme.dim,
        Focus::Chat => theme.cyan,
    };
    let mut written = false;
    let mut i: usize = 0;
    while i < draft.len()
        invariant
            i <= draft@.len(),
            written <==> exists|k: int|
                0 <= k < i && (#[trigger] text::texts(draft@)[k]).len() > 0,
        decreases draft@.len() - i,
    {
        assert(text::texts(draft@)[i as int] == draft@[i as int]@);
        if !draft[i].as_str().is_empty() {
            written = true;
        }
        i += 1;
    }
    if !written {
        let placeholder: usize = str_width(INPUT_PLACEHOLDER) % 65536;
        let send: usize = str_width(SEND_LABEL) % 65536;
        let gap: usize = (chat_column.width as usize).saturating_sub(
            PROMPT_MARKER_WIDTH as usize + placeholder + send,
        );
        let mut spans: Vec<Span> = Vec::new();
        spans.push(Span::styled(text::owned(PROMPT_MARKER), Style::new().fg(color)));
        spans.push(Span::styled(text::owned(INPUT_PLACEHOLDER), Style::new().fg(theme.dim)));
        spans.push(Span::raw(text::repeat(' ', gap)));
        spans.push(Span::styled(text::owned(SEND_LABEL), Style::new().fg(theme.selection)));
        assert(style::span_views(spans@) =~= blank_input(chat_column.width, focus, *theme).spans);
        return InputSurface::Blank {
            line: Line::from_spans(spans),
            background: theme.input_panel_bg,
        };
    }
    let marker_area = if chat_column.width == 0 {
        None
    } else {
        let w: u16 = if chat_column.width < PROMPT_MARKER_WIDTH {
            chat_column.width
        } else {
            PROMPT_MARKER_WIDTH
        };
        Some(Rect::new(chat_column.x, chat_column.y, w, 1))
    };
    let text_area = if chat_column.width > PROMPT_MARKER_WIDTH && chat_column.height > 0 {
        Some(
            Rect::new(
                chat_column.x + PROMPT_MARKER_WIDTH,
                chat_column.y,
                chat_column.width - PROMPT_MARKER_WIDTH,
                chat_column.height,
            ),
        )
    } else {
        None
    };
    let send = str_width_u16(SEND_LABEL);
    let chip_area = if chat_column.height > 1 && chat_column.width > send {
        Some(Rect::new(chat_column.x + (chat_column.width - send), chat_column.y, send, 1))
    } else {
        None
    };
    InputSurface::Draft {
        marker: Line::styled(text::owned(PROMPT_MARKER), Style::new().fg(color)),
        marker_area,
        text_area,
        chip: Line::styled(text::owned(SEND_LABEL), Style::new().fg(theme.selection)),
        chip_area,
        background: theme.input_panel_bg,
    }
}

/// The scroll hint's text.
pub open spec fn scroll_label(at_bottom: bool) -> Seq<char> {
    if at_bottom {
        "\u{2191} more "@
    } else {
        "\u{2191}\u{2193} more "@
    }
}

/// The scroll hint and where it goes: at the right end of the spinner line,
/// where it has room.
pub fn render_scroll_hint(at_bottom: bool, theme: &Theme, spinner_line: Rect) -> (r: Option<
    (Rect, Line),
>)
    requires
        spinner_line.fits(),
    ensures
        r is Some <==> spinner_line.width > width::columns(scroll_label(at_bottom)) % 65536,
        r matches Some((area, line)) ==> {
            let w = (width::columns(scroll_label(at_bottom)) % 65536) as u16;
            &&& area == (Rect {
                x: (spinner_line.x + spinner_line.width - w) as u16,
                y: spinner_line.y,
                width: w,
                height: 1,
            })
            &&& line@ == style::line_of(scroll_label(at_bottom), style::fg(theme.dim))
        },
{
    let label = if at_bottom {
        "\u{2191} more "
    } else {
        "\u{2191}\u{2193} more "
    };
    let w = str_width_u16(label);
    if spinner_line.width > w {
        let area = Rect::new(
            spinner_line.x + (spinner_line.width - w),
            spinner_line.y,
            w,
            1,
        );
        Some((area, Line::styled(text::owned(label), Style::new().fg(theme.dim))))
    } else {
        None
    }
}

/// The reasoning shows its last ten lines, as they read, with an ellipsis before
/// the first one where some are left out.
pub proof fn law_thoughts_show_their_end(thoughts: Seq<char>, theme: Theme)
    ensures
        ({
            let all = text::lines(thoughts);
            let block = thoughts_block(thoughts, theme);
            let n = if all.len() <= 10 {
                all.len()
            } else {
                10
            };
            let cut = all.len() - n;
            &&& block.len() == n
            &&& forall|i: int|
                (if cut > 0 { 1int } else { 0int }) <= i < n ==> #[trigger] block[i].text()
                    == all[cut + i]
            &&& cut > 0 ==> block[0].text() == seq!['\u{2026}'] + all[cut]
        }),
{
    reveal_strlit("\u{2026}");
    reveal_with_fuel(style::spans_text, 2);
    assert("\u{2026}"@ =~= seq!['\u{2026}']);
    let all = text::lines(thoughts);
    let block = thoughts_block(thoughts, theme);
    let cut = first_shown(all.len() as int);
    assert forall|i: int| 0 <= i < block.len() implies #[trigger] block[i].text()
        == block[i].spans[0].content by {
        assert(block[i].spans.drop_last() =~= Seq::empty());
        assert(block[i].text() =~= block[i].spans[0].content);
    }
}

/// The spinner line tells what the chat waits for: nothing at rest, its turn, or
/// its answer; and how many subagents work.
pub proof fn law_spinner_tells_the_state(
    lifecycle: ChatLifecycle,
    subagents: Option<u64>,
    spinner: char,
    theme: Theme,
)
    ensures
        ({
            let line = spinner_line(lifecycle, subagents, spinner, theme);
            let note = match subagents {
                Some(n) => " \u{00b7} subagents working: "@ + text::decimal(n as nat),
                None => Seq::empty(),
            };
            &&& lifecycle is Idle && subagents is None ==> line is None
            &&& lifecycle is Idle && subagents is Some ==> line is Some && line->0.text() == note
            &&& lifecycle is Awaiting ==> line is Some && line->0.text() == seq![' ', spinner]
                + " queued\u{2026}"@ + note
            &&& lifecycle is Running ==> line is Some && line->0.text() == seq![' ', spinner]
                + " thinking\u{2026}"@ + note
        }),
{
    reveal_strlit(" ");
    reveal_strlit("");
    reveal_with_fuel(style::spans_text, 2);
    assert(" "@.push(spinner) =~= seq![' ', spinner]);
    assert(""@ =~= Seq::empty());
    match spinner_line(lifecycle, subagents, spinner, theme) {
        Some(l) => {
            assert(l.spans.drop_last() =~= Seq::empty());
            assert(l.text() =~= l.spans[0].content);
        },
        None => {},
    }
}

/// The status row ends with the state of the link, in words and in its color; a
/// message takes the place of all hints.
pub proof fn law_status_tells_the_link(facts: StatusFacts, theme: Theme)
    ensures
        ({
            let spans = status_line(facts, theme).spans;
            &&& spans.last().content == (match facts.connection {
                Connection::Connected => "\u{25cf} connected"@,
                Connection::Connecting => "\u{25cf} connecting\u{2026}"@,
                Connection::Disconnected => "\u{25cf} disconnected (press R)"@,
            })
            &&& facts.message matches Some(m) ==> spans.len() == 3 && spans[0].content == "  "@ + m@
            &&& facts.message is None ==> spans[0].content == HINTS@
        }),
{
}

/// The hints tell what the moment offers: the clone where the backend has it, the
/// state of the reasoning, and a mark for unread diagnostics.
pub proof fn law_status_marks(facts: StatusFacts, theme: Theme)
    requires
        facts.normal_mode,
    ensures
        ({
            let marks = status_tokens(facts, theme);
            let c = if facts.clone_supported {
                1int
            } else {
                0int
            };
            &&& facts.clone_supported ==> marks[0].content == " \u{00b7} ^P"@
            &&& marks[c].content == " \u{00b7} ^S "@ + (if facts.thoughts_visible {
                "on"@
            } else {
                "off"@
            })
            &&& facts.log_total > facts.log_seen ==> marks.len() == c + 2 && marks[c + 1].content
                == " \u{00b7} log*"@
            &&& facts.log_total <= facts.log_seen ==> marks.len() == c + 1
        }),
{
}

/// The rename editor shows each line of the new name, the first one behind its
/// label.
pub proof fn law_rename_shows_the_name(draft: Seq<char>, area_width: u16, theme: Theme)
    ensures
        ({
            let parts = text::split(draft, '\n');
            let rows = rename_lines(draft, area_width, theme);
            &&& rows.len() == parts.len()
            &&& rows[0].spans[2].content == parts[0]
            &&& forall|i: int| 1 <= i < rows.len() ==> (#[trigger] rows[i]).spans.len() == 1
                && rows[i].spans[0].content == parts[i]
        }),
{
    text::lemma_split_nonempty(draft, '\n');
}

/// The parts of the input block lie side by side in its column: the marker left,
/// the text behind it to the right end, the chip at the right end of the first
/// row.
pub proof fn law_input_parts(column: Rect)
    requires
        column.fits(),
        column.width > 2,
        column.height > 0,
    ensures
        marker_area_of(column) == Some(Rect { x: column.x, y: column.y, width: 2, height: 1 }),
        text_area_of(column) matches Some(a) && a.x == column.x + 2 && a.y == column.y && a.width
            == column.width - 2 && a.height == column.height,
        chip_area_of(column) matches Some(a) ==> a.x + a.width == column.x + column.width && a.y
            == column.y && a.height == 1,
{
}

/// The input is blank if and only if no line of the draft holds a letter.
pub proof fn law_blank_draft(draft: Seq<Seq<char>>)
    ensures
        !has_text(draft) <==> forall|i: int| 0 <= i < draft.len() ==> (#[trigger] draft[i]).len()
            == 0,
{
    if !has_text(draft) {
        assert forall|i: int| 0 <= i < draft.len() implies (#[trigger] draft[i]).len() == 0 by {
            if draft[i].len() > 0 {
                assert(has_text(draft));
            }
        }
    }
}

/// The first row of the rename editor fills its width: the hint ends at its right
/// edge where the name leaves room.
pub proof fn law_rename_hint_at_the_edge(area_width: u16, head: Seq<char>)
    requires
        2 + width::columns(RENAME_LABEL@) + width::columns(head) + width::columns(RENAME_HINT@)
            <= area_width,
    ensures
        2 + width::columns(RENAME_LABEL@) + width::columns(head) + rename_gap(area_width, head)
            + width::columns(RENAME_HINT@) == area_width,
{
}

/// The blank input shows the placeholder behind the marker and the chip at its
/// right edge.
pub proof fn law_blank_input_fills_the_row(columns: u16, focus: Focus, theme: Theme)
    requires
        2 + width::columns(INPUT_PLACEHOLDER@) + width::columns(SEND_LABEL@) <= columns,
    ensures
        ({
            let spans = blank_input(columns, focus, theme).spans;
            &&& spans.len() == 4
            &&& spans[0].content == PROMPT_MARKER@
            &&& spans[1].content == INPUT_PLACEHOLDER@
            &&& spans[3].content == SEND_LABEL@
            &&& 2 + width::columns(INPUT_PLACEHOLDER@) + spans[2].content.len() + width::columns(
                SEND_LABEL@,
            ) == columns
            &&& spans[0].style.fg == Some(
                if focus == Focus::Sidebar {
                    theme.dim
                } else {
                    theme.cyan
                },
            )
        }),
{
}

/// The colors of the link: green where it is up, yellow on the way, red where it
/// is down. The scroll hint points down only where there is more below.
pub proof fn law_link_colors()
    ensures
        connection_color(Connection::Connected) == theme::tokyo_night().green,
        connection_color(Connection::Connecting) == theme::tokyo_night().yellow,
        connection_color(Connection::Disconnected) == theme::tokyo_night().red,
        scroll_label(true) == "\u{2191} more "@,
        scroll_label(false) == "\u{2191}\u{2193} more "@,
{
}

/// The thoughts shown end with the last line of the reasoning.
pub proof fn law_thoughts_end_with_the_last_line(thoughts: &str, theme: &Theme, r: Vec<Line>)
    requires
        call_ensures(thoughts_block_lines, (thoughts, theme), r),
        text::lines(thoughts@).len() > 1,
    ensures
        1 < r@.len() <= 10,
        r@.last()@.text() == text::lines(thoughts@).last(),
{
    law_thoughts_show_their_end(thoughts@, *theme);
    let n = r@.len() as int;
    let block = thoughts_block(thoughts@, *theme);
    assert(style::line_views(r@).len() == n);
    assert(style::line_views(r@)[n - 1] == r@[n - 1]@);
    assert(block[n - 1].text() == text::lines(thoughts@).last());
}

} // verus!
