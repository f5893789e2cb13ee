//! The splash screen: a kitten in pixel art, one character to a pixel, shown for
//! a moment at startup. Any key skips it; Esc and Ctrl+C ask before they leave.

use vstd::prelude::*;
use crate::keys::{quit_decision, KeyCode, KeyEvent, QuitDecision};
use crate::style::{Color, Line, Modifier, Rect, Style};
use crate::theme::Theme;
use crate::ui::layout;
use crate::wrap::{build_runs, Cell};
use crate::{keys, style, text, wrap};

verus! {

/// How long the splash stays, in milliseconds.
pub const MIN_HOLD_MILLIS: u64 = 1500;

/// How long a parked splash waits for a key at a time, in milliseconds.
pub const PARKED_MILLIS: u64 = 3_600_000;

/// Columns of the logo.
pub const LOGO_WIDTH: u16 = 35;

/// The rows of the logo.
pub open spec fn logo_rows() -> Seq<Seq<char>> {
    seq![
        "    ##                  ##"@,
        "   #oo#                #pp#"@,
        "  #oooo#              #pppp#"@,
        " ############################"@,
        " #oooooooooccccccccccccccccc#   ###"@,
        " #ccwweeeeeccccccccwweeeeecc#  #oo#"@,
        " #ccwweeeeeccccccccwweeeeecc#  #oo#"@,
        " #cceeeeeeecccccccceeeeeeecc#  #cc#"@,
        "t#cckeeeeekcccccccckeeeeekcc#  #cc#"@,
        "t#bbcccccccmmmmmmmmcccccccbb#  #cc#"@,
        "t#cccccccccmmmnnmmmccccccccc#  #oo#"@,
        "t#cccccccccmddmmddmccccccccc#  #to#"@,
        " #cccccccccccccccccccccccccc#  #cc#"@,
        " ############################  #cc#"@,
        "        #cccccccccccc#         #cc#"@,
        "        #cccccccccooc#         #cc#"@,
        "        #cccccccccccc#          #c#"@,
        "        #cccdccccdccc#          #c#"@,
        "        #cccccccccccc#          #c#"@,
        "        ##############          ###"@,
    ]
}

/// What a list of literals holds.
pub open spec fn literal_views(v: Seq<&'static str>) -> Seq<Seq<char>> {
    Seq::new(v.len(), |i: int| v[i]@)
}

/// The rows of the logo.
pub fn logo() -> (r: Vec<&'static str>)
    ensures
        literal_views(r@) == logo_rows(),
{
    let mut rows: Vec<&'static str> = Vec::new();
    rows.push("    ##                  ##");
    rows.push("   #oo#                #pp#");
    rows.push("  #oooo#              #pppp#");
    rows.push(" ############################");
    rows.push(" #oooooooooccccccccccccccccc#   ###");
    rows.push(" #ccwweeeeeccccccccwweeeeecc#  #oo#");
    rows.push(" #ccwweeeeeccccccccwweeeeecc#  #oo#");
    rows.push(" #cceeeeeeecccccccceeeeeeecc#  #cc#");
    rows.push("t#cckeeeeekcccccccckeeeeekcc#  #cc#");
    rows.push("t#bbcccccccmmmmmmmmcccccccbb#  #cc#");
    rows.push("t#cccccccccmmmnnmmmccccccccc#  #oo#");
    rows.push("t#cccccccccmddmmddmccccccccc#  #to#");
    rows.push(" #cccccccccccccccccccccccccc#  #cc#");
    rows.push(" ############################  #cc#");
    rows.push("        #cccccccccccc#         #cc#");
    rows.push("        #cccccccccooc#         #cc#");
    rows.push("        #cccccccccccc#          #c#");
    rows.push("        #cccdccccdccc#          #c#");
    rows.push("        #cccccccccccc#          #c#");
    rows.push("        ##############          ###");
    assert(literal_views(rows@) =~= logo_rows());
    rows
}

/// The color of a pixel; `None` is the background.
pub open spec fn pixel_color(c: char, theme: Theme) -> Option<Color> {
    if c == '#' {
        Some(Color::Rgb(158, 105, 70))
    } else if c == 'o' {
        Some(theme.orange)
    } else if c == 'p' {
        Some(Color::Rgb(255, 202, 187))
    } else if c == 'c' {
        Some(Color::Rgb(242, 227, 201))
    } else if c == 'w' {
        Some(Color::Rgb(255, 255, 255))
    } else if c == 'e' {
        Some(theme.cyan)
    } else if c == 'k' {
        Some(Color::Rgb(22, 64, 95))
    } else if c == 'm' {
        Some(Color::Rgb(250, 241, 222))
    } else if c == 'b' {
        Some(Color::Rgb(255, 183, 166))
    } else if c == 'n' {
        Some(Color::Rgb(255, 143, 163))
    } else if c == 'd' {
        Some(Color::Rgb(122, 74, 47))
    } else if c == 't' {
        Some(theme.dim)
    } else {
        None
    }
}

/// The color of a pixel; `None` is the background.
pub fn color_for(c: char, theme: &Theme) -> (r: Option<Color>)
    ensures
        r == pixel_color(c, *theme),
{
    match c {
        '#' => Some(Color::Rgb(158, 105, 70)),
        'o' => Some(theme.orange),
        'p' => Some(Color::Rgb(255, 202, 187)),
        'c' => Some(Color::Rgb(242, 227, 201)),
        'w' => Some(Color::Rgb(255, 255, 255)),
        'e' => Some(theme.cyan),
        'k' => Some(Color::Rgb(22, 64, 95)),
        'm' => Some(Color::Rgb(250, 241, 222)),
        'b' => Some(Color::Rgb(255, 183, 166)),
        'n' => Some(Color::Rgb(255, 143, 163)),
        'd' => Some(Color::Rgb(122, 74, 47)),
        't' => Some(theme.dim),
        _ => None,
    }
}

/// The style of a pixel.
pub open spec fn pixel_style(c: char, theme: Theme) -> Style {
    match pixel_color(c, theme) {
        Some(color) => style::fg(color),
        None => style::plain(),
    }
}

/// The pixels of a row with their styles.
pub open spec fn pixels(row: Seq<char>, theme: Theme) -> Seq<Cell> {
    Seq::new(row.len(), |i: int| (row[i], pixel_style(row[i], theme)))
}

/// The logo in color: neighbours of one color share a span.
pub open spec fn logo_image(theme: Theme) -> Seq<style::LineView> {
    Seq::new(
        logo_rows().len(),
        |i: int| style::line(wrap::runs(pixels(logo_rows()[i], theme))),
    )
}

/// Builds the logo in color.
pub fn logo_lines(theme: &Theme) -> (r: Vec<Line>)
    ensures
        style::line_views(r@) == logo_image(*theme),
{
    let rows = logo();
    let ghost goal = logo_image(*theme);
    let mut lines: Vec<Line> = Vec::new();
    let mut i: usize = 0;
    assert(style::line_views(lines@) =~= goal.take(0));
    assert(literal_views(rows@).len() == rows@.len());
    while i < rows.len()
        invariant
            i <= rows@.len(),
            rows@.len() == goal.len(),
            literal_views(rows@) == logo_rows(),
            goal == logo_image(*theme),
            style::line_views(lines@) == goal.take(i as int),
        decreases rows@.len() - i,
    {
        broadcast use style::line_views_push;

        assert(literal_views(rows@)[i as int] == rows@[i as int]@);
        let chars = text::to_chars(rows[i]);
        let ghost row = logo_rows()[i as int];
        let mut cells: Vec<Cell> = Vec::new();
        let mut k: usize = 0;
        assert(cells@ =~= pixels(row, *theme).take(0));
        while k < chars.len()
            invariant
                k <= chars@.len(),
                chars@ == row,
                cells@ == pixels(row, *theme).take(k as int),
            decreases chars@.len() - k,
        {
            let c = chars[k];
            let st = match color_for(c, theme) {
                Some(color) => Style::new().fg(color),
                None => Style::new(),
            };
            cells.push((c, st));
            k += 1;
            assert(pixels(row, *theme).take(k as int) =~= pixels(row, *theme).take(k - 1).push(
                pixels(row, *theme)[k - 1],
            ));
        }
        assert(cells@ =~= pixels(row, *theme));
        assert(cells@.subrange(0, cells@.len() as int) =~= cells@);
        let spans = build_runs(&cells, 0, cells.len());
        lines.push(Line::from_spans(spans));
        i += 1;
        assert(goal.take(i as int) =~= goal.take(i - 1).push(goal[i - 1]));
    }
    assert(goal.take(i as int) =~= goal);
    lines
}

/// The splash: the logo, the product's name and version, the tagline and the
/// hint.
pub open spec fn content(version: Seq<char>, theme: Theme) -> Seq<style::LineView> {
    logo_image(theme) + seq![
        style::blank(),
        style::line_of(
            "chibi-tui v"@ + version,
            style::fg(theme.fg).plus(Modifier::Bold),
        ),
        style::line_of("your tiny AI companion"@, style::fg(theme.dim)),
        style::blank(),
        style::line_of("press any key"@, style::fg(theme.selection)),
    ]
}

/// Builds the splash for the program's version.
pub fn content_lines(theme: &Theme, version: &str) -> (r: Vec<Line>)
    ensures
        style::line_views(r@) == content(version@, *theme),
{
    broadcast use style::line_views_push;

    let mut lines = logo_lines(theme);
    lines.push(Line::blank());
    lines.push(
        Line::styled(
            text::concat("chibi-tui v", version),
            Style::new().fg(theme.fg).add_modifier(Modifier::Bold),
        ),
    );
    lines.push(
        Line::styled(text::owned("your tiny AI companion"), Style::new().fg(theme.dim)),
    );
    lines.push(Line::blank());
    lines.push(Line::styled(text::owned("press any key"), Style::new().fg(theme.selection)));
    assert(style::line_views(lines@) =~= content(version@, *theme));
    lines
}

/// Where the splash goes: at the middle of the frame, cut where it is larger.
pub open spec fn splash_area(frame: Rect, rows: int) -> Rect {
    let h = rows % 0x1_0000;
    Rect {
        x: (frame.x + layout::less(frame.width as int, LOGO_WIDTH as int) / 2) as u16,
        y: (frame.y + layout::less(frame.height as int, h) / 2) as u16,
        width: if LOGO_WIDTH < frame.width {
            LOGO_WIDTH
        } else {
            frame.width
        },
        height: (if h < frame.height {
            h
        } else {
            frame.height as int
        }) as u16,
    }
}

/// Lays out the splash: its lines, and where they go.
pub fn draw(frame: Rect, theme: &Theme, version: &str) -> (r: (Vec<Line>, Rect))
    requires
        frame.fits(),
    ensures
        style::line_views(r.0@) == content(version@, *theme),
        r.1 == splash_area(frame, content(version@, *theme).len() as int),
{
    let lines = content_lines(theme, version);
    assert(style::line_views(lines@).len() == lines@.len());
    let h: u16 = (lines.len() % 0x1_0000) as u16;
    let area = Rect::new(
        frame.x + frame.width.saturating_sub(LOGO_WIDTH) / 2,
        frame.y + frame.height.saturating_sub(h) / 2,
        if LOGO_WIDTH < frame.width {
            LOGO_WIDTH
        } else {
            frame.width
        },
        if h < frame.height {
            h
        } else {
            frame.height
        },
    );
    (lines, area)
}

/// What happens during the splash.
#[derive(Clone, Copy, Debug, PartialEq, Eq, Structural)]
pub enum SplashEvent {
    Key(KeyEvent),
    /// The time asked for has passed.
    Timeout,
    /// No more events will come.
    Closed,
    /// Anything else.
    Other,
}

/// What the splash does next.
#[derive(Clone, Copy, Debug, PartialEq, Eq, Structural)]
pub enum SplashStep {
    /// Start the program.
    Start,
    /// Leave the program.
    Abort,
    /// Stay, with the quit confirmation open or not.
    Stay { quit_confirm: bool },
}

/// The splash after an event. While the quit confirmation is open, time does not
/// count.
pub open spec fn after_event(quit_confirm: bool, event: SplashEvent) -> SplashStep {
    match event {
        SplashEvent::Key(key) => if quit_confirm {
            match keys::quit_meaning(key) {
                QuitDecision::Confirm => SplashStep::Abort,
                QuitDecision::Dismiss => SplashStep::Stay { quit_confirm: false },
                QuitDecision::Swallow => SplashStep::Stay { quit_confirm: true },
            }
        } else if key.code == KeyCode::Esc || key.ctrl_c() {
            SplashStep::Stay { quit_confirm: true }
        } else {
            SplashStep::Start
        },
        SplashEvent::Timeout => if quit_confirm {
            SplashStep::Stay { quit_confirm: true }
        } else {
            SplashStep::Start
        },
        SplashEvent::Closed => SplashStep::Start,
        SplashEvent::Other => SplashStep::Stay { quit_confirm },
    }
}

/// Decides on an event.
pub fn run(quit_confirm: bool, event: SplashEvent) -> (r: SplashStep)
    ensures
        r == after_event(quit_confirm, event),
{
    match event {
        SplashEvent::Key(key) => if quit_confirm {
            match quit_decision(key) {
                QuitDecision::Confirm => SplashStep::Abort,
                QuitDecision::Dismiss => SplashStep::Stay { quit_confirm: false },
                QuitDecision::Swallow => SplashStep::Stay { quit_confirm: true },
            }
        } else {
            match key.code {
                KeyCode::Esc => SplashStep::Stay { quit_confirm: true },
                _ => if key.is_ctrl_c() {
                    SplashStep::Stay { quit_confirm: true }
                } else {
                    SplashStep::Start
                },
            }
        },
        SplashEvent::Timeout => if quit_confirm {
            SplashStep::Stay { quit_confirm: true }
        } else {
            SplashStep::Start
        },
        SplashEvent::Closed => SplashStep::Start,
        SplashEvent::Other => SplashStep::Stay { quit_confirm },
    }
}

/// How long to wait for the next event, in milliseconds, `elapsed` after the
/// start; `None` where the time is up. An open quit confirmation parks the time.
pub fn hold(quit_confirm: bool, elapsed: u64) -> (r: Option<u64>)
    ensures
        r == (if quit_confirm {
            Some(PARKED_MILLIS)
        } else if elapsed >= MIN_HOLD_MILLIS {
            None
        } else {
            Some((MIN_HOLD_MILLIS - elapsed) as u64)
        }),
{
    if quit_confirm {
        Some(PARKED_MILLIS)
    } else if elapsed >= MIN_HOLD_MILLIS {
        None
    } else {
        Some(MIN_HOLD_MILLIS - elapsed)
    }
}

/// While the quit confirmation is open, neither time nor any key starts the
/// program; and no single key leaves it.
pub proof fn law_confirm_is_never_skipped(key: KeyEvent)
    ensures
        after_event(true, SplashEvent::Timeout) == (SplashStep::Stay { quit_confirm: true }),
        after_event(true, SplashEvent::Key(key)) != SplashStep::Start,
        after_event(false, SplashEvent::Key(key)) != SplashStep::Abort,
{
}

/// On the splash any key starts the program, but for Esc and Ctrl+C, which ask
/// before they leave; the time and a closed input start it too, anything else
/// waits.
pub proof fn law_splash_events(key: KeyEvent, quit_confirm: bool)
    ensures
        key.code != KeyCode::Esc && !(key.modifiers.control && key.code == KeyCode::Char('c'))
            ==> after_event(false, SplashEvent::Key(key)) == SplashStep::Start,
        key.code == KeyCode::Esc || (key.modifiers.control && key.code == KeyCode::Char('c'))
            ==> after_event(false, SplashEvent::Key(key)) == (SplashStep::Stay {
            quit_confirm: true,
        }),
        after_event(false, SplashEvent::Timeout) == SplashStep::Start,
        after_event(quit_confirm, SplashEvent::Closed) == SplashStep::Start,
        after_event(quit_confirm, SplashEvent::Other) == (SplashStep::Stay { quit_confirm }),
        after_event(true, SplashEvent::Key(key)) == SplashStep::Abort <==> keys::quit_meaning(key)
            == QuitDecision::Confirm,
        keys::quit_meaning(key) == QuitDecision::Dismiss ==> after_event(
            true,
            SplashEvent::Key(key),
        ) == (SplashStep::Stay { quit_confirm: false }),
{
}

/// The splash stands in the middle of the frame and never leaves it.
pub proof fn law_splash_is_centered(frame: Rect, rows: int)
    requires
        frame.fits(),
        0 <= rows < 0x1_0000,
    ensures
        ({
            let a = splash_area(frame, rows);
            let left = a.x - frame.x;
            let right = frame.x + frame.width - (a.x + a.width);
            let above = a.y - frame.y;
            let below = frame.y + frame.height - (a.y + a.height);
            &&& 0 <= left <= right <= left + 1
            &&& 0 <= above <= below <= above + 1
            &&& frame.width >= 35 ==> a.width == 35
            &&& frame.height >= rows ==> a.height == rows
        }),
{
}

/// The logo shows row by row as it is drawn, each pixel in its color.
pub proof fn law_logo_is_drawn(theme: Theme, i: int, k: int)
    requires
        0 <= i < logo_rows().len(),
        0 <= k < logo_rows()[i].len(),
    ensures
        ({
            let row = logo_image(theme)[i];
            let cells = wrap::spans_cells(row.spans, style::plain());
            &&& logo_image(theme).len() == logo_rows().len()
            &&& cells.len() == logo_rows()[i].len()
            &&& cells[k].0 == logo_rows()[i][k]
            &&& cells[k].1.fg == pixel_color(logo_rows()[i][k], theme)
        }),
{
    wrap::law_runs_keep_cells(pixels(logo_rows()[i], theme));
}

/// Behind the logo stand the version, the motto and the hint.
pub proof fn law_splash_tells_the_version(version: Seq<char>, theme: Theme)
    ensures
        ({
            let all = content(version, theme);
            let n = logo_rows().len() as int;
            &&& all.len() == n + 5
            &&& all.take(n) == logo_image(theme)
            &&& all[n + 1].spans[0].content == "chibi-tui v"@ + version
            &&& all[n + 2].spans[0].content == "your tiny AI companion"@
            &&& all.last().spans[0].content == "press any key"@
        }),
{
    let all = content(version, theme);
    assert(all.take(logo_rows().len() as int) =~= logo_image(theme));
}

} // verus!
