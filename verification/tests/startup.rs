//! The setup screen, the splash and the terminal's state.

use chibi_tui::keys::{KeyCode, KeyEvent, KeyModifiers};
use chibi_tui::request_pipeline::BackendError;
use chibi_tui::setup_screen::{
    applies, content_lines, draw, run, Flow, SetupStep, TargetOs,
};
use chibi_tui::splash;
use chibi_tui::splash::{SplashEvent, SplashStep, LOGO_WIDTH};
use chibi_tui::style::{Line, Rect};
use chibi_tui::terminal::{
    push_kitty_flags, push_kitty_flags_on, setup_steps, TerminalRestore, TerminalStep,
};
use chibi_tui::theme::Theme;
use chibi_tui::ui::popups::render_quit_confirm;
use unicode_width::UnicodeWidthStr;

fn key(code: KeyCode, control: bool) -> KeyEvent {
    KeyEvent::new(code, KeyModifiers { control, shift: false, alt: false, other: false })
}

/// Flatten styled lines into one plain string for substring checks.
fn flat(lines: &[Line]) -> String {
    lines
        .iter()
        .map(|l| {
            l.spans
                .iter()
                .map(|s| s.content.as_str())
                .collect::<String>()
        })
        .collect::<Vec<_>>()
        .join("\n")
}

#[test]
fn unix_content_lists_pipx_and_venv_commands() {
    let text = flat(&content_lines(TargetOs::Unix, &Theme::tokyo_night()));
    assert!(text.contains("not found on PATH"), "got: {text}");
    assert!(text.contains("pipx install chibi"));
    assert!(text.contains("python3 -m venv ~/.local/share/chibi-tui/venv"));
    assert!(text.contains("~/.local/share/chibi-tui/venv/bin/pip install chibi-bot"));
    assert!(text.contains("export CHIBI_BACKEND_BIN=~/.local/share/chibi-tui/venv/bin/chibi"));
    assert!(text.contains("export CHIBI_BACKEND_BIN=/path/to/chibi"));
}

#[test]
fn windows_content_lists_py_and_venv_commands() {
    let text = flat(&content_lines(TargetOs::Windows, &Theme::tokyo_night()));
    assert!(text.contains(r"py -3 -m venv %USERPROFILE%"), "got: {text}");
    assert!(text.contains(r"\Scripts\pip install chibi-bot"));
    assert!(text.contains(r"set CHIBI_BACKEND_BIN=%USERPROFILE%"));
    assert!(text.contains(r"set CHIBI_BACKEND_BIN=C:\path\to\chibi.exe"));
    // pipx works on Windows too, so it stays on that page as well.
    assert!(text.contains("pipx install chibi"));
}

#[test]
fn both_variants_carry_the_backend_bin_escape_hatch() {
    for os in [TargetOs::Unix, TargetOs::Windows] {
        let text = flat(&content_lines(os, &Theme::tokyo_night()));
        assert!(text.contains("Already have a backend?"), "os: {os:?}");
        assert!(text.contains("CHIBI_BACKEND_BIN"), "os: {os:?}");
    }
}

#[test]
fn hint_names_retry_and_quit_keys() {
    let text = flat(&content_lines(TargetOs::Unix, &Theme::tokyo_night()));
    assert!(text.contains("r retry"));
    assert!(text.contains("q/Esc quit"));
}

#[test]
fn applies_only_to_spawn_errors_without_an_override() {
    let spawn = BackendError::Spawn {
        program: "chibi".to_owned(),
        reason: "no such file".to_owned(),
    };
    let exec_failed = BackendError::UnexpectedExit { status: 1 };
    assert!(applies(&spawn, None));
    assert!(!applies(&spawn, Some("/bin/false")));
    assert!(!applies(&exec_failed, None));
}

#[test]
fn quit_confirm_overlay_renders_over_the_setup_screen() {
    let theme = Theme::tokyo_night();
    let frame = Rect::new(0, 0, 80, 30);
    let screen = draw(TargetOs::Unix, frame, &theme);
    let popup = render_quit_confirm(frame, &theme);
    assert!(flat(&popup.lines).contains("Quit chibi-tui?"));
    assert!(flat(&screen.lines).contains("not found on PATH"));
    assert!(popup.area.y > screen.inner.y, "the first line stays readable");
}

#[test]
fn the_setup_box_is_sized_to_its_content() {
    let screen = draw(TargetOs::Unix, Rect::new(0, 0, 100, 40), &Theme::tokyo_night());
    let widest = screen.lines.iter().map(|l| l.plain_text().width()).max().unwrap();
    assert_eq!(screen.area.width as usize, widest + 4);
    assert_eq!(screen.area.height as usize, screen.lines.len() + 4);
    assert_eq!(screen.inner.width as usize, widest);
    assert_eq!(screen.area.x, (100 - screen.area.width) / 2);
    let small = draw(TargetOs::Unix, Rect::new(0, 0, 34, 7), &Theme::tokyo_night());
    assert_eq!((small.area.width, small.area.height), (30, 5));
    let tiny = draw(TargetOs::Unix, Rect::new(0, 0, 10, 2), &Theme::tokyo_night());
    assert_eq!(tiny.area, Rect::new(0, 0, 20, 3), "a tiny terminal clips the box");
    let t = Theme::tokyo_night();
    assert_eq!((tiny.border, tiny.background), (t.orange, t.bg));
}

#[test]
fn the_separator_tells_the_system() {
    assert_eq!(TargetOs::of_separator('/'), TargetOs::Unix);
    assert_eq!(TargetOs::of_separator('\\'), TargetOs::Windows);
    assert_eq!(TargetOs::current(), TargetOs::of_separator(std::path::MAIN_SEPARATOR));
}

#[test]
fn setup_keys_retry_or_ask_before_quitting() {
    let stay = |quit_confirm| SetupStep::Stay { quit_confirm };
    assert_eq!(run(false, key(KeyCode::Char('r'), false)), SetupStep::Leave(Flow::Retry));
    assert_eq!(run(false, key(KeyCode::Char('R'), false)), SetupStep::Leave(Flow::Retry));
    for k in [key(KeyCode::Char('q'), false), key(KeyCode::Esc, false), key(KeyCode::Char('c'), true)]
    {
        assert_eq!(run(false, k), stay(true));
    }
    assert_eq!(run(false, key(KeyCode::Char('x'), false)), stay(false));
    assert_eq!(run(true, key(KeyCode::Enter, false)), SetupStep::Leave(Flow::Quit));
    assert_eq!(run(true, key(KeyCode::Char('q'), false)), stay(false));
    assert_eq!(run(true, key(KeyCode::Char('r'), false)), stay(true));
}

#[test]
fn logo_grid_is_consistent() {
    let logo = splash::logo();
    assert_eq!(logo.len(), 20, "logo must be 20 rows tall");
    let max_w = logo.iter().map(|l| l.width()).max().unwrap();
    assert_eq!(max_w, LOGO_WIDTH as usize, "widest row defines the grid");
    assert!(
        logo.iter().all(|l| l.width() <= LOGO_WIDTH as usize),
        "no row may exceed the declared grid width"
    );
}

#[test]
fn every_glyph_has_a_palette_entry() {
    let theme = Theme::tokyo_night();
    for row in splash::logo() {
        for c in row.chars() {
            if c.is_whitespace() {
                continue;
            }
            assert!(
                splash::color_for(c, &theme).is_some(),
                "unmapped glyph {c:?} would render invisible"
            );
        }
    }
}

#[test]
fn ascii_only_no_exotic_unicode() {
    for row in splash::logo() {
        assert!(row.is_ascii(), "logo must stay pure ASCII (no tofu-prone glyphs)");
    }
}

#[test]
fn content_has_branding_lines() {
    let theme = Theme::tokyo_night();
    let lines = splash::content_lines(&theme, "1.2.3");
    assert_eq!(lines.len(), 20 + 5, "logo + spacers + name/tagline/hint");
    assert_eq!(lines[21].plain_text(), "chibi-tui v1.2.3");
    assert_eq!(lines[24].plain_text(), "press any key");
}

#[test]
fn logo_lines_merge_neighbours_of_one_color() {
    let lines = splash::logo_lines(&Theme::tokyo_night());
    let row = &lines[1];
    assert_eq!(row.plain_text(), splash::logo()[1]);
    let parts: Vec<&str> = row.spans.iter().map(|s| s.content.as_str()).collect();
    assert_eq!(parts, ["   ", "#", "oo", "#", "                ", "#", "pp", "#"]);
}

#[test]
fn quit_confirm_overlay_renders_over_the_splash() {
    let theme = Theme::tokyo_night();
    let frame = Rect::new(0, 0, 80, 30);
    let (lines, area) = splash::draw(frame, &theme, "0");
    let popup = render_quit_confirm(frame, &theme);
    assert!(flat(&popup.lines).contains("Quit chibi-tui?"));
    let hint_row = area.y + lines.len() as u16 - 1;
    assert_eq!(lines.last().unwrap().plain_text(), "press any key");
    assert!(hint_row >= popup.area.y + popup.area.height, "the hint stays visible");
}

#[test]
fn the_splash_waits_skips_and_asks() {
    let stay = |quit_confirm| SplashStep::Stay { quit_confirm };
    assert_eq!(splash::run(false, SplashEvent::Key(key(KeyCode::Char('x'), false))), SplashStep::Start);
    assert_eq!(splash::run(false, SplashEvent::Key(key(KeyCode::Esc, false))), stay(true));
    assert_eq!(splash::run(false, SplashEvent::Key(key(KeyCode::Char('c'), true))), stay(true));
    assert_eq!(splash::run(false, SplashEvent::Timeout), SplashStep::Start);
    assert_eq!(splash::run(true, SplashEvent::Timeout), stay(true));
    assert_eq!(splash::run(true, SplashEvent::Key(key(KeyCode::Char('y'), false))), SplashStep::Abort);
    assert_eq!(splash::run(true, SplashEvent::Key(key(KeyCode::Char('n'), false))), stay(false));
    assert_eq!(splash::run(true, SplashEvent::Key(key(KeyCode::Char('x'), false))), stay(true));
    assert_eq!(splash::run(true, SplashEvent::Other), stay(true));
    assert_eq!(splash::run(false, SplashEvent::Closed), SplashStep::Start);
    assert_eq!(splash::hold(false, 0), Some(1500));
    assert_eq!(splash::hold(false, 1499), Some(1));
    assert_eq!(splash::hold(false, 1500), None);
    assert_eq!(splash::hold(true, 9999), Some(3_600_000));
}

#[test]
fn a_small_frame_cuts_the_splash() {
    let (_, area) = splash::draw(Rect::new(0, 0, 20, 10), &Theme::tokyo_night(), "0");
    assert_eq!(area, Rect::new(0, 0, 20, 10));
    let (_, area) = splash::draw(Rect::new(0, 0, 80, 30), &Theme::tokyo_night(), "0");
    assert_eq!(area, Rect::new(22, 2, 35, 25));
}

#[test]
fn terminal_restore_pops_the_kitty_flags_exactly_when_they_were_pushed() {
    let windows = TargetOs::current() == TargetOs::Windows;
    let restore = TerminalRestore::new(push_kitty_flags(), !windows);
    assert_eq!(
        restore.pop_kitty_flags,
        push_kitty_flags(),
        "the guard's pop decision must mirror the push decision"
    );
    assert_eq!(
        restore.disable_bracketed_paste, !windows,
        "the guard's disable decision must mirror the enable decision"
    );
}

#[test]
fn kitty_flags_are_for_unix() {
    assert!(push_kitty_flags_on(TargetOs::Unix));
    assert!(!push_kitty_flags_on(TargetOs::Windows));
}

#[test]
fn the_terminal_is_left_as_it_was_found() {
    assert_eq!(
        setup_steps(true, false),
        vec![
            TerminalStep::EnableRawMode,
            TerminalStep::EnterAlternateScreen,
            TerminalStep::EnableMouseCapture,
            TerminalStep::PushKittyFlags,
        ]
    );
    assert_eq!(
        TerminalRestore::new(true, true).restore_steps(),
        vec![
            TerminalStep::DisableRawMode,
            TerminalStep::PopKittyFlags,
            TerminalStep::DisableBracketedPaste,
            TerminalStep::LeaveAlternateScreen,
            TerminalStep::DisableMouseCapture,
            TerminalStep::ShowCursor,
        ]
    );
    assert!(!TerminalRestore::new(false, true)
        .restore_steps()
        .contains(&TerminalStep::PopKittyFlags));
}
