//! Finding text in threads and in the log.

use chibi_tui::app::{LogEntry, LogSearch, LogViewerState, SearchMatch};
use chibi_tui::find::{find_in_log, find_in_message, hits_in};
use chibi_tui::keys::{KeyCode, KeyEvent, KeyModifiers};
use chibi_tui::log_keys::{viewer_key, ViewerStep};
use chibi_tui::wrap::hard_wrap;

const PLAIN: KeyModifiers = KeyModifiers { control: false, shift: false, alt: false, other: false };

fn viewer(cursor: usize, lines: &[&str], search: Option<LogSearch>) -> LogViewerState {
    LogViewerState {
        cursor,
        wrap: false,
        row_offset: 0,
        lines: lines.iter().map(|l| LogEntry { text: (*l).to_owned(), level: None }).collect(),
        snapshot_total: lines.len() as u64,
        search_buf: None,
        search,
        copy_note: None,
    }
}

fn search(state: &LogViewerState) -> &LogSearch {
    state.search.as_ref().expect("search committed")
}

#[test]
fn hits_lie_one_behind_the_other_in_either_case() {
    assert_eq!(hits_in("Needle in a needle", "nEEdle"), [(0, 6), (12, 18)]);
    assert_eq!(hits_in("aaaa", "aa"), [(0, 2), (2, 4)]);
    assert_eq!(hits_in("\u{e9}t\u{e9}", "T"), [(1, 2)]);
    assert_eq!(hits_in("short", "much longer"), []);
    assert_eq!(hits_in("anything", ""), []);
    assert_eq!(hits_in("", "x"), []);
}

#[test]
fn messages_are_searched_line_by_line() {
    let mut found: Vec<SearchMatch> = Vec::new();
    let lines = vec!["no".to_owned(), "a needle, a needle".to_owned(), "Needle".to_owned()];
    find_in_message(&mut found, &lines, "needle", 3);
    let places: Vec<(usize, usize, usize)> =
        found.iter().map(|m| (m.message_index, m.line_index, m.col)).collect();
    assert_eq!(places, [(3, 1, 2), (3, 1, 12), (3, 2, 0)]);
    assert_eq!(found[1].line_text, "a needle, a needle");
    find_in_message(&mut found, &lines, "no", 4);
    assert_eq!(found.len(), 4, "behind the hits that are there");
    assert_eq!(found[3].message_index, 4);
}

fn press(state: &mut LogViewerState, code: KeyCode) -> ViewerStep {
    viewer_key(state, KeyEvent::new(code, PLAIN), 20)
}

fn chord(state: &mut LogViewerState, code: KeyCode) -> ViewerStep {
    viewer_key(state, KeyEvent::new(code, KeyModifiers { control: true, ..PLAIN }), 20)
}

#[test]
fn log_viewer_search_open_commit_and_navigate_wraparound() {
    let mut state = viewer(3, &["alpha one", "beta ALPHA two", "gamma", "alpha three"], None);
    press(&mut state, KeyCode::Char('/'));
    for ch in "alpha".chars() {
        press(&mut state, KeyCode::Char(ch));
    }
    assert_eq!(state.search_buf.as_deref(), Some("alpha"), "prompt holds the typed pattern");

    press(&mut state, KeyCode::Enter);
    assert_eq!(search(&state).pattern, "alpha");
    assert_eq!(search(&state).matches, vec![0, 1, 3]);
    assert_eq!(search(&state).current, None, "no hit selected before the first n");
    assert_eq!(state.cursor, 3);

    press(&mut state, KeyCode::Char('n'));
    assert_eq!(state.cursor, 0);
    assert_eq!(search(&state).current, Some(0));
    press(&mut state, KeyCode::Char('n'));
    assert_eq!(state.cursor, 1);
    assert_eq!(search(&state).current, Some(1));
    press(&mut state, KeyCode::Char('n'));
    assert_eq!(state.cursor, 3);
    press(&mut state, KeyCode::Char('n'));
    assert_eq!(state.cursor, 0, "n wraps around at the end");

    press(&mut state, KeyCode::Char('N'));
    assert_eq!(state.cursor, 3);
    assert_eq!(search(&state).current, Some(2));
}

#[test]
fn log_viewer_search_esc_cancels_and_empty_commit_switches_off() {
    let previous =
        || Some(LogSearch { pattern: "gamma".to_owned(), matches: vec![2], current: Some(0) });
    let mut state = viewer(0, &["alpha one", "gamma line"], previous());
    press(&mut state, KeyCode::Char('/'));
    press(&mut state, KeyCode::Char('x'));
    press(&mut state, KeyCode::Esc);
    assert!(state.search_buf.is_none(), "prompt closed by Esc");
    assert_eq!(state.search, previous(), "old search untouched");

    press(&mut state, KeyCode::Char('/'));
    press(&mut state, KeyCode::Enter);
    assert!(state.search.is_none(), "empty pattern switches off");
}

#[test]
fn log_viewer_search_prompt_swallows_everything_else() {
    let mut state = viewer(1, &["alpha one", "beta two"], None);
    press(&mut state, KeyCode::Char('/'));
    press(&mut state, KeyCode::Char('w'));
    press(&mut state, KeyCode::Char('n'));
    press(&mut state, KeyCode::Char('G'));
    chord(&mut state, KeyCode::Char('j'));
    press(&mut state, KeyCode::Down);
    press(&mut state, KeyCode::Enter);
    assert_eq!(search(&state).pattern, "wnG", "only plain chars reached the buffer");
    assert!(
        search(&state).matches.is_empty(),
        "no line matches, search stays active with zero hits"
    );
    assert_eq!(state.cursor, 1, "cursor never moved while typing");
    assert!(!state.wrap, "w did not toggle wrap inside the prompt");
}

#[test]
fn log_viewer_pgup_pgdn_arrows_and_letters_navigate() {
    let lines: Vec<String> = (0..60).map(|i| format!("filler-{i}")).collect();
    let lines: Vec<&str> = lines.iter().map(String::as_str).collect();
    let tail = 59;
    let mut state = viewer(tail, &lines, None);
    press(&mut state, KeyCode::PageUp);
    assert_eq!(state.cursor, tail - 20, "PgUp pages up, cursor follows");
    press(&mut state, KeyCode::Up);
    assert_eq!(state.cursor, tail - 21, "\u{2191} steps one line");
    press(&mut state, KeyCode::Char('k'));
    assert_eq!(state.cursor, tail - 22, "k steps one line too");
    press(&mut state, KeyCode::PageDown);
    assert_eq!(state.cursor, tail - 2);
    press(&mut state, KeyCode::Down);
    assert_eq!(state.cursor, tail - 1, "\u{2193} steps one line, still pinned");
    press(&mut state, KeyCode::Char('j'));
    assert!(state.at_tail(), "j lands back on the live tail (re-armed)");
    press(&mut state, KeyCode::Char('g'));
    assert_eq!(state.cursor, 0, "g jumps to the top");
    press(&mut state, KeyCode::Char('G'));
    assert!(state.at_tail(), "G jumps back to the live tail");
}

#[test]
fn log_viewer_w_toggles_wrap() {
    let mut state = viewer(0, &["some line"], None);
    assert!(!state.wrap);
    press(&mut state, KeyCode::Char('w'));
    assert!(state.wrap, "`w` turns wrap on");
    press(&mut state, KeyCode::Char('w'));
    assert!(!state.wrap, "`w` turns wrap back off");
}

#[test]
fn log_viewer_y_sets_copied_feedback() {
    let mut state = viewer(1, &["first", "second line"], None);
    assert_eq!(press(&mut state, KeyCode::Char('y')), ViewerStep::Copy);
    assert_eq!(state.copy_note.as_deref(), Some("copied"));
}

#[test]
fn the_viewer_swallows_what_is_not_its_own() {
    let lines = ["a", "b", "c"];
    let mut state = viewer(1, &lines, None);
    for c in ['x', 'z', 'q'] {
        assert_eq!(press(&mut state, KeyCode::Char(c)), ViewerStep::Stay);
    }
    for c in ['n', 'r', 'l', 'd', 'f', 't', 'g', 'v', 'y'] {
        assert_eq!(chord(&mut state, KeyCode::Char(c)), ViewerStep::Stay);
    }
    for code in [KeyCode::Enter, KeyCode::Left, KeyCode::Right, KeyCode::Backspace] {
        assert_eq!(press(&mut state, code), ViewerStep::Stay);
    }
    assert_eq!(state, viewer(1, &lines, None));
    assert_eq!(press(&mut state, KeyCode::Esc), ViewerStep::Close);
    state.search_buf = Some("ab".to_owned());
    press(&mut state, KeyCode::Backspace);
    assert_eq!(state.search_buf.as_deref(), Some("a"));
}

#[test]
fn a_pattern_without_hits_stays_active() {
    let mut state = viewer(1, &["alpha one", "beta two"], None);
    state.commit_search();
    assert!(state.search.is_none(), "no prompt, no change");
    state.search_buf = Some("zzz".to_owned());
    state.commit_search();
    assert!(search(&state).matches.is_empty());
    state.walk_search(true);
    assert_eq!((state.cursor, search(&state).current), (1, None));
    assert_eq!(find_in_log(&state.lines, "o"), [0, 1]);
}

#[test]
fn a_walk_without_a_current_hit_starts_at_the_cursor() {
    let mut state = viewer(1, &["x", "-", "x", "-"], None);
    let hits = || LogSearch { pattern: "x".to_owned(), matches: vec![0, 2], current: None };
    state.search = Some(hits());
    state.walk_search(true);
    assert_eq!(state.cursor, 2);
    state.search = Some(hits());
    state.walk_search(false);
    assert_eq!(state.cursor, 0);
}

#[test]
fn hard_wrapped_lines_lose_nothing() {
    assert_eq!(hard_wrap("abcdefgh", 3), ["abc", "def", "gh"]);
    assert_eq!(hard_wrap("a b c ", 4), ["a b ", "c "]);
    assert_eq!(hard_wrap("\u{4e2d}\u{6587}", 1), ["\u{4e2d}", "\u{6587}"]);
    assert_eq!(hard_wrap("", 3), [""]);
}
