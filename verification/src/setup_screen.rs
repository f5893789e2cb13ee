//! The screen shown at startup where the backend binary is missing: it names the
//! problem, lists the commands that install the backend on this system, and
//! waits for a retry.

use vstd::prelude::*;
use crate::keys::{quit_decision, KeyCode, KeyEvent, QuitDecision};
use crate::request_pipeline::BackendError;
use crate::style::{Color, Line, Modifier, Rect, Style};
use crate::theme::Theme;
use crate::ui::layout::block_inner;
use crate::ui::popups::{center, height_of_popup, width_of_popup};
use crate::ui::{layout, popups};
use crate::width::str_width;
use crate::{keys, style, text, width};

verus! {

/// The family of the operating system.
#[derive(Clone, Copy, Debug, PartialEq, Eq, Structural)]
pub enum TargetOs {
    Unix,
    Windows,
}

/// `std::path::MAIN_SEPARATOR`: what separates path components on the host.
/// Nothing is stated of it: it depends on the machine.
#[verifier::external_body]
fn path_separator() -> (r: char) {
    std::path::MAIN_SEPARATOR
}

impl TargetOs {
    /// The family whose paths are separated by `separator`.
    pub fn of_separator(separator: char) -> (r: TargetOs)
        ensures
            r == (if separator == '\\' {
                TargetOs::Windows
            } else {
                TargetOs::Unix
            }),
    {
        if separator == '\\' {
            TargetOs::Windows
        } else {
            TargetOs::Unix
        }
    }

    /// The host's family, told by its path separator.
    pub fn current() -> (r: TargetOs) {
        TargetOs::of_separator(path_separator())
    }
}

/// Whether the screen applies: the default binary could not be started, and the
/// user has not named another one. Any other failure keeps its own error text.
pub fn applies(err: &BackendError, backend_bin: Option<&str>) -> (r: bool)
    ensures
        r == (err is Spawn && backend_bin is None),
{
    match err {
        BackendError::Spawn { .. } => backend_bin.is_none(),
        _ => false,
    }
}

/// How the screen is left.
#[derive(Clone, Copy, Debug, PartialEq, Eq, Structural)]
pub enum Flow {
    /// Start the backend again.
    Retry,
    /// Leave the program.
    Quit,
}

/// What the screen says before the commands.
pub open spec fn opening(theme: Theme) -> Seq<style::LineView> {
    seq![
        style::line_of("The backend binary `chibi` was not found on PATH."@, style::fg(theme.fg).plus(Modifier::Bold)),
        style::line_of("chibi-tui spawns it to reach the AI. Install it with one"@, style::fg(theme.dim)),
        style::line_of("of the options below, then press r to retry."@, style::fg(theme.dim)),
        style::blank(),
        style::line_of("pipx (recommended)"@, style::fg(theme.cyan).plus(Modifier::Bold)),
        style::line_of("  pipx install chibi"@, style::fg(theme.green)),
        style::blank(),
        style::line_of("venv (manual)"@, style::fg(theme.cyan).plus(Modifier::Bold)),
    ]
}

/// How to install the backend by hand.
pub open spec fn manual_commands(os: TargetOs, theme: Theme) -> Seq<style::LineView> {
    match os {
        TargetOs::Unix => seq![
        style::line_of("  python3 -m venv ~/.local/share/chibi-tui/venv"@, style::fg(theme.green)),
        style::line_of("  ~/.local/share/chibi-tui/venv/bin/pip install chibi-bot"@, style::fg(theme.green)),
        style::line_of("  export CHIBI_BACKEND_BIN=~/.local/share/chibi-tui/venv/bin/chibi"@, style::fg(theme.green)),
        ],
        TargetOs::Windows => seq![
        style::line_of("  py -3 -m venv %USERPROFILE%\\.local\\share\\chibi-tui\\venv"@, style::fg(theme.green)),
        style::line_of("  %USERPROFILE%\\.local\\share\\chibi-tui\\venv\\Scripts\\pip install chibi-bot"@, style::fg(theme.green)),
        style::line_of("  set CHIBI_BACKEND_BIN=%USERPROFILE%\\.local\\share\\chibi-tui\\venv\\Scripts\\chibi.exe"@, style::fg(theme.green)),
        ],
    }
}

/// How to name a backend that is already there.
pub open spec fn override_command(os: TargetOs) -> Seq<char> {
    match os {
        TargetOs::Unix => "  export CHIBI_BACKEND_BIN=/path/to/chibi"@,
        TargetOs::Windows => "  set CHIBI_BACKEND_BIN=C:\\path\\to\\chibi.exe"@,
    }
}

/// The screen's text.
pub open spec fn content(os: TargetOs, theme: Theme) -> Seq<style::LineView> {
    opening(theme) + manual_commands(os, theme) + seq![
        style::blank(),
        style::line_of(
            "Already have a backend? Point the TUI at it:"@,
            style::fg(theme.cyan).plus(Modifier::Bold),
        ),
        style::line_of(override_command(os), style::fg(theme.green)),
        style::blank(),
        style::line_of("r retry \u{00b7} q/Esc quit"@, style::fg(theme.yellow)),
    ]
}

/// Builds the screen's text. Each command has a line of its own.
pub fn content_lines(os: TargetOs, theme: &Theme) -> (r: Vec<Line>)
    ensures
        style::line_views(r@) == content(os, *theme),
{
    broadcast use style::line_views_push;

    let bold = Style::new().fg(theme.fg).add_modifier(Modifier::Bold);
    let dim = Style::new().fg(theme.dim);
    let cmd = Style::new().fg(theme.green);
    let head = Style::new().fg(theme.cyan).add_modifier(Modifier::Bold);
    let mut lines: Vec<Line> = Vec::new();
    lines.push(Line::styled(text::owned("The backend binary `chibi` was not found on PATH."), bold));
    lines.push(Line::styled(text::owned("chibi-tui spawns it to reach the AI. Install it with one"), dim));
    lines.push(Line::styled(text::owned("of the options below, then press r to retry."), dim));
    lines.push(Line::blank());
    lines.push(Line::styled(text::owned("pipx (recommended)"), head));
    lines.push(Line::styled(text::owned("  pipx install chibi"), cmd));
    lines.push(Line::blank());
    lines.push(Line::styled(text::owned("venv (manual)"), head));
    assert(style::line_views(lines@) =~= opening(*theme));
    match os {
        TargetOs::Unix => {
            lines.push(
                Line::styled(
                    text::owned("  python3 -m venv ~/.local/share/chibi-tui/venv"),
                    cmd,
                ),
            );
            lines.push(
                Line::styled(
                    text::owned("  ~/.local/share/chibi-tui/venv/bin/pip install chibi-bot"),
                    cmd,
                ),
            );
            lines.push(
                Line::styled(
                    text::owned("  export CHIBI_BACKEND_BIN=~/.local/share/chibi-tui/venv/bin/chibi"),
                    cmd,
                ),
            );
        },
        TargetOs::Windows => {
            lines.push(
                Line::styled(
                    text::owned("  py -3 -m venv %USERPROFILE%\\.local\\share\\chibi-tui\\venv"),
                    cmd,
                ),
            );
            lines.push(
                Line::styled(
                    text::owned("  %USERPROFILE%\\.local\\share\\chibi-tui\\venv\\Scripts\\pip install chibi-bot"),
                    cmd,
                ),
            );
            lines.push(
                Line::styled(
                    text::owned("  set CHIBI_BACKEND_BIN=%USERPROFILE%\\.local\\share\\chibi-tui\\venv\\Scripts\\chibi.exe"),
                    cmd,
                ),
            );
        },
    }
    assert(style::line_views(lines@) =~= opening(*theme) + manual_commands(os, *theme));
    lines.push(Line::blank());
    lines.push(
        Line::styled(text::owned("Already have a backend? Point the TUI at it:"), head),
    );
    match os {
        TargetOs::Unix => {
            lines.push(
                Line::styled(text::owned("  export CHIBI_BACKEND_BIN=/path/to/chibi"), cmd),
            );
        },
        TargetOs::Windows => {
            lines.push(
                Line::styled(
                    text::owned("  set CHIBI_BACKEND_BIN=C:\\path\\to\\chibi.exe"),
                    cmd,
                ),
            );
        },
    }
    lines.push(Line::blank());
    lines.push(
        Line::styled(
            text::owned("r retry \u{00b7} q/Esc quit"),
            Style::new().fg(theme.yellow),
        ),
    );
    assert(style::line_views(lines@) =~= content(os, *theme));
    lines
}

/// The columns of a list of spans.
pub open spec fn spans_columns(spans: Seq<style::SpanView>) -> nat
    decreases spans.len(),
{
    if spans.len() == 0 {
        0
    } else {
        spans_columns(spans.drop_last()) + width::columns(spans.last().content)
    }
}

/// The columns of the widest of the first `n` lines.
pub open spec fn widest_line(lines: Seq<style::LineView>, n: int) -> nat
    decreases n,
{
    if n <= 0 {
        0
    } else if spans_columns(lines[n - 1].spans) > widest_line(lines, n - 1) {
        spans_columns(lines[n - 1].spans)
    } else {
        widest_line(lines, n - 1)
    }
}

/// The box of the screen in `frame`: its text, a border, and one column of
/// padding on each side. A frame that is too small for it clips it.
pub open spec fn screen_area(frame: Rect, lines: Seq<style::LineView>) -> Rect {
    let columns = text::capped(widest_line(lines, lines.len() as int) as int) % 0x1_0000 + 4;
    let rows = lines.len() % 0x1_0000 + 4;
    popups::centered(
        frame,
        popups::popup_width(frame.width, popups::greater(columns, 30)),
        popups::popup_height(frame.height, popups::greater(rows as int, 5)),
    )
}

/// The screen as it is painted.
#[derive(Debug)]
pub struct SetupSurface {
    pub area: Rect,
    /// Where the lines go.
    pub inner: Rect,
    pub title: Line,
    pub border: Color,
    /// The color behind the whole screen.
    pub background: Color,
    pub lines: Vec<Line>,
}

fn line_columns(line: &Line) -> (r: usize)
    ensures
        r as int == text::capped(spans_columns(line@.spans) as int),
{
    let mut total: usize = 0;
    let mut i: usize = 0;
    assert(line@.spans.take(0) =~= Seq::empty());
    while i < line.spans.len()
        invariant
            i <= line.spans@.len(),
            total == text::capped(spans_columns(line@.spans.take(i as int)) as int),
        decreases line.spans@.len() - i,
    {
        assert(line@.spans.take(i + 1).drop_last() =~= line@.spans.take(i as int));
        assert(line@.spans[i as int].content == line.spans@[i as int].content@);
        total = total.saturating_add(str_width(line.spans[i].content.as_str()));
        i += 1;
    }
    assert(line@.spans.take(i as int) =~= line@.spans);
    total
}

/// Lays out the screen for `os`. Tiny frames just clip, as with the popups.
pub fn draw(os: TargetOs, frame: Rect, theme: &Theme) -> (r: SetupSurface)
    requires
        frame.fits(),
    ensures
        style::line_views(r.lines@) == content(os, *theme),
        r.area == screen_area(frame, content(os, *theme)),
        r.inner == layout::inner_area(r.area, 1),
        r.title@ == style::line_of(
            " Backend setup "@,
            style::fg(theme.orange).plus(Modifier::Bold),
        ),
        r.border == theme.orange,
        r.background == theme.bg,
{
    let lines = content_lines(os, theme);
    let ghost views = style::line_views(lines@);
    assert(views.len() == lines@.len());
    let mut widest: usize = 0;
    let mut i: usize = 0;
    while i < lines.len()
        invariant
            i <= lines@.len(),
            views == style::line_views(lines@),
            widest == text::capped(widest_line(views, i as int) as int),
        decreases lines@.len() - i,
    {
        assert(views[i as int] == lines@[i as int]@);
        let w = line_columns(&lines[i]);
        if w > widest {
            widest = w;
        }
        i += 1;
    }
    let mut columns: u32 = (widest % 0x1_0000) as u32 + 4;
    if columns < 30 {
        columns = 30;
    }
    let mut rows: u16 = ((lines.len() % 0x1_0000) as u16).saturating_add(4);
    if rows < 5 {
        rows = 5;
    }
    let area = center(
        frame,
        width_of_popup(frame.width, columns),
        height_of_popup(frame.height, rows),
    );
    SetupSurface {
        area,
        inner: block_inner(area, 1),
        title: Line::styled(
            text::owned(" Backend setup "),
            Style::new().fg(theme.orange).add_modifier(Modifier::Bold),
        ),
        border: theme.orange,
        background: theme.bg,
        lines,
    }
}

/// What the screen does next.
#[derive(Clone, Copy, Debug, PartialEq, Eq, Structural)]
pub enum SetupStep {
    Leave(Flow),
    /// Stay, with the quit confirmation open or not.
    Stay { quit_confirm: bool },
}

/// The screen after a key.
pub open spec fn after_key(quit_confirm: bool, key: KeyEvent) -> SetupStep {
    if quit_confirm {
        match keys::quit_meaning(key) {
            QuitDecision::Confirm => SetupStep::Leave(Flow::Quit),
            QuitDecision::Dismiss => SetupStep::Stay { quit_confirm: false },
            QuitDecision::Swallow => SetupStep::Stay { quit_confirm: true },
        }
    } else if key.ctrl_c() || key.code == KeyCode::Esc || key.code == KeyCode::Char('q') {
        SetupStep::Stay { quit_confirm: true }
    } else if key.code == KeyCode::Char('r') || key.code == KeyCode::Char('R') {
        SetupStep::Leave(Flow::Retry)
    } else {
        SetupStep::Stay { quit_confirm: false }
    }
}

/// Decides on a key. The exit keys ask first.
pub fn run(quit_confirm: bool, key: KeyEvent) -> (r: SetupStep)
    ensures
        r == after_key(quit_confirm, key),
{
    if quit_confirm {
        return match quit_decision(key) {
            QuitDecision::Confirm => SetupStep::Leave(Flow::Quit),
            QuitDecision::Dismiss => SetupStep::Stay { quit_confirm: false },
            QuitDecision::Swallow => SetupStep::Stay { quit_confirm: true },
        };
    }
    if key.is_ctrl_c() {
        return SetupStep::Stay { quit_confirm: true };
    }
    match key.code {
        KeyCode::Esc => SetupStep::Stay { quit_confirm: true },
        KeyCode::Char(c) => if c == 'q' {
            SetupStep::Stay { quit_confirm: true }
        } else if c == 'r' || c == 'R' {
            SetupStep::Leave(Flow::Retry)
        } else {
            SetupStep::Stay { quit_confirm: false }
        },
        _ => SetupStep::Stay { quit_confirm: false },
    }
}

/// No single key leaves the program from the screen: the quit confirmation has
/// to be open before.
pub proof fn law_quit_asks_first(key: KeyEvent)
    ensures
        after_key(false, key) != SetupStep::Leave(Flow::Quit),
{
}

/// On the setup screen `r` tries again, and `q`, Esc and Ctrl+C ask before they
/// leave; nothing else does anything.
pub proof fn law_setup_keys(key: KeyEvent)
    ensures
        !key.modifiers.control && (key.code == KeyCode::Char('r') || key.code == KeyCode::Char(
            'R',
        )) ==> after_key(false, key) == SetupStep::Leave(Flow::Retry),
        key.code == KeyCode::Esc || key.code == KeyCode::Char('q') || (key.modifiers.control
            && key.code == KeyCode::Char('c')) ==> after_key(false, key) == (SetupStep::Stay {
            quit_confirm: true,
        }),
        after_key(false, key) == SetupStep::Leave(Flow::Retry) ==> key.code == KeyCode::Char('r')
            || key.code == KeyCode::Char('R'),
        after_key(true, key) == SetupStep::Leave(Flow::Quit) <==> keys::quit_meaning(key)
            == QuitDecision::Confirm,
        keys::quit_meaning(key) == QuitDecision::Dismiss ==> after_key(true, key) == (
        SetupStep::Stay { quit_confirm: false }),
        after_key(true, key) != SetupStep::Leave(Flow::Retry),
{
}

proof fn lemma_widest_line(lines: Seq<style::LineView>, n: int)
    requires
        0 <= n <= lines.len(),
    ensures
        forall|i: int| 0 <= i < n ==> spans_columns((#[trigger] lines[i]).spans) <= widest_line(
            lines,
            n,
        ),
    decreases n,
{
    if n > 0 {
        lemma_widest_line(lines, n - 1);
    }
}

/// The setup screen is wide enough for every one of its lines where the frame is.
pub proof fn law_setup_screen_has_room(frame: Rect, lines: Seq<style::LineView>, i: int)
    requires
        frame.fits(),
        0 <= i < lines.len(),
        30 <= widest_line(lines, lines.len() as int) + 4 <= frame.width - 4,
    ensures
        spans_columns(lines[i].spans) + 4 <= screen_area(frame, lines).width,
{
    lemma_widest_line(lines, lines.len() as int);
}

/// The setup screen tells the commands of the machine's own system, and ends with
/// its keys.
pub proof fn law_setup_tells_the_commands(os: TargetOs, theme: Theme)
    ensures
        ({
            let all = content(os, theme);
            &&& all.len() == 16
            &&& all.subrange(8, 11) == manual_commands(os, theme)
            &&& all[5].spans[0].content == "  pipx install chibi"@
            &&& os == TargetOs::Unix ==> all[13].spans[0].content
                == "  export CHIBI_BACKEND_BIN=/path/to/chibi"@
            &&& os == TargetOs::Windows ==> all[13].spans[0].content
                == "  set CHIBI_BACKEND_BIN=C:\\path\\to\\chibi.exe"@
            &&& all.last().spans[0].content == "r retry \u{00b7} q/Esc quit"@
        }),
{
    let all = content(os, theme);
    assert(all.subrange(8, 11) =~= manual_commands(os, theme));
}

} // verus!
