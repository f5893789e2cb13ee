//! The modal surfaces: confirmations, searches, picker, help and log viewer.

use chibi_tui::app::{
    GlobalSearchMatch, GlobalSearchState, LogEntry, LogLevel, LogSearch, LogViewerState,
    ModelPickerPhase, ModelPickerState, SearchMatch, SearchState, StopResetAction,
};
use chibi_tui::mock::chat;
use chibi_tui::model::Message;
use chibi_tui::model_picker::{parse_model_listing, ModelEntry};
use chibi_tui::style::{Line, Rect, Style};
use chibi_tui::theme::Theme;
use chibi_tui::ui::help::{help_modal_total_lines, hotkey_rows, render_help_modal};
use chibi_tui::ui::log::{
    log_layout, log_line_spans, log_line_style, log_pieces, log_surface, render_log_viewer,
    LogLayout, LogPieces, LogSurface,
};
use chibi_tui::ui::picker::{body_and_footer, render_model_picker};
use chibi_tui::ui::popups::{
    center, height_of_popup, render_delete_popup, render_error_popup, render_quit_confirm,
    render_stop_reset_popup, scroll_to_tail, width_of_popup, wrap_text,
};
use chibi_tui::ui::search::{render_search_all_popup, render_search_popup, window_of};

const FRAME: Rect = Rect { x: 0, y: 0, width: 120, height: 40 };

fn texts(lines: &[Line]) -> Vec<String> {
    lines.iter().map(Line::plain_text).collect()
}

#[test]
fn popup_texts_wrap_at_words() {
    let rows = |s: &str, w: usize| texts(&wrap_text(s, w));
    assert_eq!(rows("hello brave world", 11), ["hello brave", "world"]);
    assert_eq!(rows("a\n\nb", 10), ["a", "", "b"]);
    assert_eq!(rows("abcdef", 4), ["abcdef"], "no word is split");
    assert_eq!(rows("a abcdefgh x", 3), ["a", "abcdefgh", "x"]);
    assert_eq!(rows("\u{4e2d}", 1), ["\u{4e2d}"]);
    assert_eq!(rows("x", 0), ["x"]);
    assert_eq!(rows("x y", 1), ["x", "y"]);
}

#[test]
fn popups_are_centered_and_bounded() {
    assert_eq!(center(FRAME, 30, 4), Rect::new(45, 18, 30, 4));
    assert_eq!(center(Rect::new(2, 3, 10, 3), 30, 4), Rect::new(2, 3, 30, 4));
    assert_eq!(height_of_popup(40, 5), 5);
    assert_eq!(height_of_popup(4, 5), 3);
    assert_eq!(width_of_popup(120, 50), 50);
    assert_eq!(width_of_popup(60, 100), 56);
    assert_eq!(width_of_popup(10, 100), 20);
    assert_eq!(scroll_to_tail(5, Rect::new(0, 0, 10, 3)), 2);
    assert_eq!(scroll_to_tail(2, Rect::new(0, 0, 10, 3)), 0);
}

#[test]
fn the_quit_banner_takes_four_rows() {
    let t = Theme::tokyo_night();
    let p = render_quit_confirm(FRAME, &t);
    assert_eq!(p.area, Rect::new(45, 18, 30, 4));
    assert_eq!(texts(&p.lines), ["Quit chibi-tui?", "y/Enter quit \u{00b7} Esc/n stay"]);
    assert_eq!(p.title.plain_text(), " Quit ");
    assert_eq!(p.border, t.red);
    assert!(p.rounded);
    assert_eq!(p.scroll, 0);
    let tiny = render_quit_confirm(Rect::new(0, 0, 40, 4), &t);
    assert_eq!(tiny.area.height, 3);
    assert_eq!(tiny.scroll, 1, "the hint shows");
}

#[test]
fn the_error_popup_wraps_its_message() {
    let t = Theme::tokyo_night();
    let p = render_error_popup("boom", FRAME, &t);
    assert_eq!(p.title.plain_text(), " Backend error ");
    assert_eq!(p.area.height, 5);
    assert_eq!(p.lines[0].plain_text(), "boom");
    assert_eq!(p.lines.last().expect("hint").spans[0].style.fg, Some(t.yellow));
    let long = "word ".repeat(60);
    let p = render_error_popup(&long, FRAME, &t);
    assert_eq!(p.area.width, 116);
    assert_eq!(p.inner.width, 112);
    assert!(p.lines.iter().all(|l| l.plain_text().chars().count() <= 112));
    assert_eq!(p.scroll as usize, p.lines.len() - 3);
}

#[test]
fn the_error_popup_gives_way_in_narrow_frames() {
    let t = Theme::tokyo_night();
    let width = |w: u16| render_error_popup("boom", Rect::new(0, 0, w, 20), &t).area.width;
    assert_eq!(width(43), 39);
    assert_eq!(width(30), 26);
    assert_eq!(width(10), 20);
}

#[test]
fn destructive_actions_are_asked_in_red() {
    let t = Theme::tokyo_night();
    let p = render_delete_popup("old\nchat", FRAME, &t);
    assert_eq!(
        texts(&p.lines),
        [
            "Delete \u{201c}old chat\u{201d} permanently?",
            "y/Enter confirm \u{00b7} Esc/n cancel \u{00b7} Ctrl+C quit"
        ]
    );
    assert_eq!(p.title.plain_text(), " Delete thread ");
    assert_eq!(p.border, t.red);
    let stop = render_stop_reset_popup(StopResetAction::Stop, FRAME, &t);
    assert_eq!(stop.title.plain_text(), " Stop request ");
    assert_eq!(stop.lines[0].plain_text(), "Stop the running request?");
    let reset = render_stop_reset_popup(StopResetAction::Reset, FRAME, &t);
    assert_eq!(reset.title.plain_text(), " Reset thread ");
    assert_eq!(reset.lines[0].plain_text(), "Reset this thread? (clears the dialog)");
    assert_eq!(reset.area, Rect::new(16, 17, 88, 5));
}

fn hits(n: usize) -> Vec<SearchMatch> {
    (0..n)
        .map(|i| SearchMatch {
            message_index: i,
            line_index: 0,
            col: 0,
            line_text: format!("hit {i}"),
        })
        .collect()
}

#[test]
fn thread_search_keeps_the_selection_in_its_window() {
    let t = Theme::tokyo_night();
    let messages = vec![Message::user("hit 0"), Message::assistant("hit 1")];
    let empty = SearchState { query: String::new(), matches: Vec::new(), selected: 0 };
    let p = render_search_popup(&empty, &messages, FRAME, &t);
    assert_eq!(p.title.plain_text(), " Find in thread \u{00b7} 0 ");
    assert_eq!(p.lines[0].plain_text(), "\u{276f} type to search\u{2026}");
    assert_eq!(p.lines.len(), 2);
    let none = SearchState { query: "x".to_owned(), ..empty };
    let p = render_search_popup(&none, &messages, FRAME, &t);
    assert_eq!(p.lines[1].plain_text(), "no matches");

    let state = SearchState { query: "hit".to_owned(), matches: hits(20), selected: 10 };
    let p = render_search_popup(&state, &messages, FRAME, &t);
    assert_eq!(p.area.height, 11);
    assert_eq!(p.lines.len(), 9);
    assert_eq!(p.lines[1].plain_text(), "  ? \u{00b7} hit 7");
    assert_eq!(p.lines[4].plain_text(), "\u{25b8} ? \u{00b7} hit 10");
    assert_eq!(p.lines[4].spans[2].style.bg, Some(t.selection));
    let first = SearchState { query: "hit".to_owned(), matches: hits(2), selected: 0 };
    let p = render_search_popup(&first, &messages, FRAME, &t);
    assert_eq!(
        texts(&p.lines)[1..3],
        ["\u{25b8} You \u{00b7} hit 0", "  Chibi \u{00b7} hit 1"]
    );
}

#[test]
fn only_the_hits_on_screen_need_a_snippet() {
    let t = Theme::tokyo_night();
    let mut matches = hits(20);
    matches[19].col = 5000;
    let state = SearchState { query: "hit".to_owned(), matches, selected: 0 };
    assert_eq!(window_of(0, 20), (0, 7));
    assert_eq!(window_of(10, 20), (7, 14));
    assert_eq!(window_of(19, 20), (13, 20));
    let p = render_search_popup(&state, &Vec::new(), FRAME, &t);
    assert_eq!(p.title.plain_text(), " Find in thread \u{00b7} 20 ");
    assert_eq!(p.lines[7].plain_text(), "  ? \u{00b7} hit 6");
}

#[test]
fn global_search_names_the_thread_of_each_hit() {
    let t = Theme::tokyo_night();
    let chats = vec![
        chat("alpha", "a", vec![Message::user("x")]),
        chat("be\nta", "b", vec![Message::assistant("x")]),
    ];
    let state = GlobalSearchState {
        query: "x".to_owned(),
        matches: vec![GlobalSearchMatch {
            chat_index: 1,
            chat_title: "be\nta".to_owned(),
            message_index: 0,
            line_index: 0,
            col: 0,
            line_text: "x".to_owned(),
        }],
        selected: 0,
    };
    let p = render_search_all_popup(&state, &chats, FRAME, &t);
    assert_eq!(p.title.plain_text(), " Search all threads \u{00b7} 1 (2 threads) ");
    assert_eq!(p.lines[1].plain_text(), "\u{25b8} be ta \u{00b7} Chibi \u{00b7} x");
    let one = vec![chat("alpha", "a", Vec::new())];
    let empty = GlobalSearchState { query: String::new(), matches: Vec::new(), selected: 0 };
    let p = render_search_all_popup(&empty, &one, FRAME, &t);
    assert_eq!(p.title.plain_text(), " Search all threads \u{00b7} 0 (1 thread) ");
    assert_eq!(p.lines[0].plain_text(), "\u{276f} type to search all threads\u{2026}");
}

#[test]
fn the_picker_lists_models_above_its_hint() {
    let t = Theme::tokyo_night();
    let loading =
        ModelPickerState { phase: ModelPickerPhase::Loading, entries: Vec::new(), selected: 0 };
    let s = render_model_picker(&loading, FRAME, &t);
    assert_eq!(s.title.plain_text(), " Model picker ");
    assert_eq!(texts(&s.rows), ["loading models\u{2026}"]);
    assert_eq!(s.selected, None);
    assert_eq!(s.area.height, 4);

    let entries: Vec<ModelEntry> = parse_model_listing("1. One (P)\n2. Two (Q)\n");
    let mut ready = ModelPickerState { phase: ModelPickerPhase::Ready, entries, selected: 1 };
    ready.entries[0].active = true;
    let s = render_model_picker(&ready, FRAME, &t);
    assert_eq!(s.title.plain_text(), " Model picker \u{00b7} 2 models ");
    assert_eq!(texts(&s.rows), ["\u{25cf} 1. One (P)", "  2. Two (Q)"]);
    assert_eq!(s.rows[0].spans[0].style.fg, Some(t.green));
    assert_eq!(s.selected, Some(1));
    assert_eq!(s.highlight.bg, Some(t.selection));
    assert!(s.highlight.add_modifier.bold);
    assert_eq!(s.symbol, "\u{25b8} ");
    assert_eq!((s.border, s.background), (t.blue, t.bg));
    assert_eq!(s.page, 2);
    assert_eq!(s.footer.y, s.body.y + 2);

    ready.entries = (1..=30)
        .map(|i| ModelEntry {
            number: i,
            name: "m".to_owned(),
            provider: None,
            active: false,
        })
        .collect();
    let s = render_model_picker(&ready, FRAME, &t);
    assert_eq!(s.page, 12);
    assert_eq!(s.rows.len(), 30);
    let (body, footer) = body_and_footer(Rect::new(3, 4, 10, 5));
    assert_eq!(body, Rect::new(3, 4, 10, 4));
    assert_eq!(footer, Rect::new(3, 8, 10, 1));
}

#[test]
fn help_lists_every_chord_under_its_group() {
    let rows = hotkey_rows();
    assert_eq!(rows.len(), 71);
    assert_eq!((rows[0].group, rows[0].chord), ("Global", "F1"));
    let last = rows[70];
    assert_eq!((last.group, last.chord, last.action), ("Help (F1)", "F1 \u{00b7} Esc", "close"));
    assert_eq!(help_modal_total_lines(), 84);
}

#[test]
fn help_scrolls_to_its_last_row_and_no_further() {
    let t = Theme::tokyo_night();
    let (top, at) = render_help_modal(0, FRAME, &t);
    assert_eq!(at, 0);
    assert_eq!(top.rows.len(), 24);
    assert_eq!(top.page, 24);
    assert_eq!(top.rows[0].plain_text(), "Global");
    let first = top.rows[1].plain_text();
    assert!(first.starts_with("F1 "), "{first}");
    assert!(first.ends_with("  open / close this keybindings help"), "{first}");
    let (end, at) = render_help_modal(usize::MAX, FRAME, &t);
    assert_eq!(at, 60);
    assert!(end.rows[23].plain_text().ends_with("  close"));
    let (small, at) = render_help_modal(5, Rect::new(0, 0, 60, 10), &t);
    assert_eq!(small.rows.len(), 4);
    assert_eq!(at, 5);
}

fn entry(text: &str, level: Option<LogLevel>) -> LogEntry {
    LogEntry { text: text.to_owned(), level }
}

#[test]
fn log_levels_have_their_colors() {
    let t = Theme::tokyo_night();
    let fg = |e: LogEntry| log_line_style(&e, &t).fg.expect("a color");
    assert_eq!(fg(entry("[tui] started", Some(LogLevel::Error))), t.dim);
    assert_eq!(fg(entry("x", None)), t.fg);
    let table = [
        (LogLevel::Trace, t.log_trace),
        (LogLevel::Debug, t.log_debug),
        (LogLevel::Info, t.green),
        (LogLevel::Success, t.green),
        (LogLevel::Warning, t.yellow),
        (LogLevel::Error, t.red),
        (LogLevel::Critical, t.red),
        (LogLevel::Tool, t.blue),
        (LogLevel::Think, t.purple),
        (LogLevel::Call, t.purple),
        (LogLevel::Check, t.red),
        (LogLevel::Moderator, t.red),
        (LogLevel::Subagent, t.cyan),
        (LogLevel::Delegate, t.blue),
    ];
    for (level, color) in table {
        assert_eq!(fg(entry("x", Some(level))), color, "{level:?}");
    }
    let critical = log_line_style(&entry("x", Some(LogLevel::Critical)), &t);
    assert!(critical.add_modifier.bold);
}

#[test]
fn log_hits_light_up_across_wrap_boundaries() {
    let t = Theme::tokyo_night();
    let base = Style::new().fg(t.fg);
    let ranges = vec![(3, 7)];
    let spans = log_line_spans("abcde", 0, &ranges, false, false, base, &t);
    assert_eq!(spans.len(), 2);
    assert_eq!(spans[0].content, "abc");
    assert_eq!(spans[0].style, base);
    assert_eq!(spans[1].content, "de");
    assert_eq!(spans[1].style.fg, Some(t.log_match));
    let next = log_line_spans("fghij", 5, &ranges, true, true, base, &t);
    assert_eq!(next[0].content, "fg");
    assert!(next[0].style.add_modifier.reversed);
    assert_eq!(next[1].content, "hij");
    assert_eq!(next[1].style.bg, Some(t.selection));
    assert!(log_line_spans("", 0, &ranges, false, false, base, &t).is_empty());
}

fn viewer(lines: usize, cursor: usize) -> LogViewerState {
    LogViewerState {
        lines: (0..lines).map(|i| entry(&format!("line {i}"), None)).collect(),
        cursor,
        wrap: false,
        snapshot_total: lines as u64,
        row_offset: 0,
        search_buf: None,
        search: None,
        copy_note: None,
    }
}

fn shown(state: &LogViewerState, total: u64, at: &LogLayout) -> LogSurface {
    let t = Theme::tokyo_night();
    let chunks: Vec<Vec<String>> = state.lines.iter().map(|l| vec![l.text.clone()]).collect();
    let ranges: Vec<Vec<(usize, usize)>> = state.lines.iter().map(|_| Vec::new()).collect();
    log_surface(state, &LogPieces { chunks: &chunks, ranges: &ranges }, total, at, &t)
}

#[test]
fn the_log_follows_its_tail_or_stays_with_the_cursor() {
    let at = log_layout(FRAME);
    assert_eq!(at.area, Rect::new(5, 5, 110, 30));
    assert_eq!(at.content, Rect::new(7, 6, 106, 27));
    assert_eq!(at.footer, Rect::new(7, 33, 106, 1));

    let s = shown(&viewer(100, 99), 100, &at);
    assert_eq!(
        s.title.plain_text(),
        " Diagnostics log \u{00b7} line 100/100 \u{00b7} live \u{00b7} wrap: off"
    );
    assert_eq!(s.row_offset, 73);
    assert_eq!(s.rows.len(), 100);
    assert_eq!((s.page, s.content_width), (27, 106));
    assert!(s.hint.plain_text().starts_with("Esc close \u{00b7} k/j lines"));
    let t = Theme::tokyo_night();
    assert_eq!((s.border, s.background), (t.blue, t.bg));

    let mut pinned = viewer(100, 50);
    pinned.row_offset = 73;
    let s = shown(&pinned, 103, &at);
    assert_eq!(s.row_offset, 50, "scrolled up to the cursor");
    assert!(s.hint.plain_text().ends_with(" \u{00b7} +3 new lines"));
    assert!(s.title.plain_text().contains("pinned"));
    pinned.row_offset = 0;
    assert_eq!(shown(&pinned, 100, &at).row_offset, 24, "scrolled down to the cursor");
    pinned.row_offset = 30;
    assert_eq!(shown(&pinned, 100, &at).row_offset, 30, "already in view");
}

#[test]
fn the_log_title_tells_the_search() {
    let at = log_layout(FRAME);
    let t = Theme::tokyo_night();
    let mut state = viewer(3, 1);
    state.search_buf = Some("a long pattern".to_owned());
    let s = shown(&state, 3, &at);
    assert!(s.title.plain_text().ends_with(" \u{00b7} search: /a long patte\u{2026}"));
    assert_eq!(
        s.hint.plain_text(),
        "/a long pattern\u{258f} Enter commit \u{00b7} Esc cancel"
    );
    assert_eq!(s.hint.spans[0].style.fg, Some(t.blue));
    state.search_buf = None;
    state.search =
        Some(LogSearch { pattern: "l".to_owned(), matches: vec![0, 1, 2], current: Some(1) });
    state.copy_note = Some("copied".to_owned());
    let title = shown(&state, 3, &at).title.plain_text();
    assert!(title.ends_with(" \u{00b7} matches: 2/3 \u{00b7} copied"), "{title}");
}

#[test]
fn wrapped_log_lines_take_several_rows() {
    let t = Theme::tokyo_night();
    let at = log_layout(FRAME);
    let mut state = viewer(2, 0);
    state.wrap = true;
    state.search =
        Some(LogSearch { pattern: "e 0".to_owned(), matches: vec![0], current: None });
    let chunks = vec![vec!["line".to_owned(), " 0".to_owned()], vec!["line 1".to_owned()]];
    let ranges = vec![vec![(3, 6)], Vec::new()];
    let pieces = LogPieces { chunks: &chunks, ranges: &ranges };
    let s = log_surface(&state, &pieces, 2, &at, &t);
    assert_eq!(texts(&s.rows), ["line", " 0", "line 1"]);
    assert_eq!(s.rows[0].spans[1].content, "e");
    assert_eq!(s.rows[1].spans[0].style.fg, Some(t.log_match), "the hit goes on");
}

#[test]
fn the_viewer_cuts_and_marks_its_own_lines() {
    let t = Theme::tokyo_night();
    let at = LogLayout { content: Rect::new(7, 6, 4, 27), ..log_layout(FRAME) };
    let mut state = viewer(2, 0);
    state.wrap = true;
    state.search =
        Some(LogSearch { pattern: "E 0".to_owned(), matches: vec![0], current: None });
    let (chunks, ranges) = log_pieces(&state, 4);
    assert_eq!(chunks, [["line", " 0"], ["line", " 1"]]);
    assert_eq!(ranges, [vec![(3, 6)], vec![]]);
    let s = render_log_viewer(&state, 2, &at, &t);
    assert_eq!(texts(&s.rows), ["line", " 0", "line", " 1"]);
    assert_eq!(s.rows[0].spans[1].content, "e");
    assert_eq!(s.rows[0].spans[1].style.fg, Some(t.log_match));
    assert_eq!(s.rows[1].spans[0].style.fg, Some(t.log_match), "the hit goes on");
    state.wrap = false;
    let s = render_log_viewer(&state, 2, &at, &t);
    assert_eq!(texts(&s.rows), ["line 0", "line 1"]);
    assert_eq!(s.rows[0].spans[1].content, "e 0");
    state.search = None;
    assert_eq!(log_pieces(&state, 4).1, [vec![], vec![]]);
}

#[test]
fn only_a_following_viewer_takes_new_lines() {
    let mut live = viewer(3, 2);
    assert!(live.at_tail());
    live.refresh((0..5).map(|i| entry(&format!("new {i}"), None)).collect(), 9);
    assert_eq!(live.lines.len(), 5);
    assert_eq!((live.cursor, live.snapshot_total), (4, 9));
    live.search = Some(LogSearch { pattern: "W 1".into(), matches: vec![1], current: Some(0) });
    live.refresh(vec![entry("new 10", None), entry("new 2", None), entry("new 1", None)], 12);
    let search = live.search.expect("kept");
    assert_eq!((search.matches, search.current), (vec![0, 2], Some(0)), "hits of the new lines");
    let mut pinned = viewer(3, 0);
    assert!(!pinned.at_tail());
    pinned.refresh(Vec::new(), 9);
    assert_eq!(pinned, viewer(3, 0));
}
