//! The panels of a frame: layout, sidebar, chat view, status strip and lines.

use chibi_tui::app::{
    Chat, ChatPos, ChatSelection, Connection, Focus, GlobalSearchState, Mode, StopResetAction,
};
use chibi_tui::mock::chat;
use chibi_tui::model::{ChatLifecycle, Message};
use chibi_tui::protocol::Usage;
use chibi_tui::style::{Line, Modifiers, Rect, Span, Style};
use chibi_tui::theme::{Highlighter, Theme};
use chibi_tui::transcript::{
    apply_selection_highlight, scroll_for_search_jump, scroll_skip, search_jump_wrapped_row,
    wrap_message_rows, wrap_message_rows_full, wrap_message_rows_indexed,
};
use chibi_tui::ui::chat::{
    chat_frame, chat_view_title, render_chat, transcript_lines, ChatContent, ChatWindow, Jump,
    StripFacts,
};
use chibi_tui::ui::layout::{draw, layout_rects, panel_region, Layer, PanelRegion};
use chibi_tui::ui::lines::{
    assistant_header_line, connection_status, render_input, render_rename_line,
    render_scroll_hint, render_spinner_line, render_status, thoughts_block_lines, InputSurface,
    StatusFacts,
};
use chibi_tui::ui::sidebar::render_sidebar;
use chibi_tui::ui::strip::{
    context_usage_segment, human_tokens, left_truncate_ellipsis, search_snippet_from,
    status_strip_text, status_strip_title, truncate_for_title,
};
use chibi_tui::wrap::{wrap_line_rows, wrap_line_rows_indexed, wrapped_row_of_char};

const FRAME: Rect = Rect { x: 0, y: 0, width: 120, height: 40 };

fn plain(text: &str) -> Line {
    Line::styled(text.to_owned(), Style::new())
}

fn texts(lines: &[Line]) -> Vec<String> {
    lines.iter().map(Line::plain_text).collect()
}

#[test]
fn a_frame_splits_into_panels() {
    let r = layout_rects(FRAME, 1);
    assert_eq!(r.sidebar, Rect::new(0, 0, 26, 37));
    assert_eq!(r.chat, Rect::new(26, 0, 94, 37));
    assert_eq!(r.root[0], Rect::new(0, 0, 120, 37));
    assert_eq!(r.root[1], Rect::new(0, 37, 120, 1));
    assert_eq!(r.root[2], Rect::new(0, 38, 120, 1));
    assert_eq!(r.root[3], Rect::new(0, 39, 120, 1));
    assert_eq!(r.chat_column(), Rect::new(26, 38, 93, 1));
}

#[test]
fn the_input_block_grows_and_is_capped_on_tiny_frames() {
    let grown = layout_rects(FRAME, 20);
    assert_eq!(grown.root[2], Rect::new(0, 19, 120, 20));
    assert_eq!(grown.root[0].height, 18);
    let tiny = layout_rects(Rect::new(0, 0, 80, 6), 20);
    assert_eq!(tiny.root[2].height, 2);
    assert_eq!(tiny.root[3], Rect::new(0, 5, 80, 1));
}

#[test]
fn narrow_frames_serve_the_chat_view_first() {
    for width in 0..60 {
        let r = layout_rects(Rect::new(5, 1, width, 20), 1);
        let list = if width >= 46 { 26 } else { width.saturating_sub(20) };
        assert_eq!(r.sidebar, Rect::new(5, 1, list, 17), "{width}");
        assert_eq!(r.chat, Rect::new(5 + list, 1, width - list, 17), "{width}");
    }
}

#[test]
fn flat_frames_give_the_main_area_up_first() {
    for height in 0..3 {
        for wanted in [0, 1, 20] {
            let r = layout_rects(Rect::new(0, 4, 80, height), wanted);
            assert_eq!(r.root[0].height, 0);
            assert!(r.root.iter().all(|part| part.height <= 1));
            assert_eq!(r.root.iter().map(|part| part.height).sum::<u16>(), height);
        }
    }
}

#[test]
fn spinner_and_hints_survive_on_every_frame_of_three_rows() {
    for height in 3..12 {
        for wanted in [1, 5, 40] {
            let r = layout_rects(Rect::new(3, 2, 70, height), wanted);
            assert_eq!((r.root[1].height, r.root[3].height), (1, 1), "{height} {wanted}");
            assert!(r.root[2].height >= 1);
            assert_eq!(r.root[0].height + r.root[2].height + 2, height);
            assert_eq!((r.sidebar.width, r.chat.width), (26, 44));
            assert_eq!((r.sidebar.x, r.chat.x), (3, 29));
        }
    }
    let low = layout_rects(Rect::new(0, 65_000, 100, 535), 1);
    assert_eq!(low.root[3], Rect::new(0, 65_534, 100, 1));
}

#[test]
fn points_fall_into_one_panel() {
    let r = layout_rects(FRAME, 1);
    assert_eq!(panel_region(&r, 0, 0), PanelRegion::Sidebar);
    assert_eq!(panel_region(&r, 25, 36), PanelRegion::Sidebar);
    assert_eq!(panel_region(&r, 26, 0), PanelRegion::Chat);
    assert_eq!(panel_region(&r, 119, 36), PanelRegion::Chat);
    assert_eq!(panel_region(&r, 60, 37), PanelRegion::Other);
    assert_eq!(panel_region(&r, 120, 0), PanelRegion::Other);
}

#[test]
fn layers_paint_in_order_with_the_quit_confirm_on_top() {
    let panels = [Layer::Sidebar, Layer::Chat, Layer::SpinnerLine, Layer::Input, Layer::Status];
    assert_eq!(draw(&Mode::Normal, false, false), panels);
    assert_eq!(
        draw(&Mode::Renaming { buf: String::new() }, false, false)[3],
        Layer::RenameLine
    );
    let over = |mode: &Mode| draw(mode, true, true)[5..].to_vec();
    assert_eq!(over(&Mode::Normal), [Layer::ErrorPopup, Layer::QuitConfirm]);
    assert_eq!(
        over(&Mode::ConfirmDelete),
        [Layer::ErrorPopup, Layer::DeletePopup, Layer::QuitConfirm]
    );
    assert_eq!(
        over(&Mode::ConfirmStopReset { action: StopResetAction::Stop }),
        [Layer::ErrorPopup, Layer::StopResetPopup, Layer::QuitConfirm]
    );
    let all = Mode::SearchingAll {
        state: GlobalSearchState { query: String::new(), matches: Vec::new(), selected: 0 },
    };
    assert_eq!(
        over(&all),
        [Layer::ErrorPopup, Layer::SearchAllPopup, Layer::QuitConfirm]
    );
    assert_eq!(
        over(&Mode::HelpViewing { scroll: 3 }),
        [Layer::ErrorPopup, Layer::HelpModal, Layer::QuitConfirm]
    );
}

fn three_chats() -> Vec<Chat> {
    let mut chats = vec![
        chat("one", "1", Vec::new()),
        chat("two\nlines", "2", Vec::new()),
        chat("three", "3", Vec::new()),
    ];
    chats[1].unread = true;
    chats
}

#[test]
fn sidebar_dots_tell_what_the_chats_do() {
    let t = Theme::tokyo_night();
    let area = layout_rects(FRAME, 1).sidebar;
    let mut chats = three_chats();
    let s = render_sidebar(&chats, 0, Focus::Chat, &t, area, FRAME);
    assert_eq!(texts(&s.rows), ["\u{25cf} one", "\u{25cb} two lines", "\u{25cb} three"]);
    let dot = |line: &Line| line.spans[0].style.fg.expect("a color");
    assert_eq!(dot(&s.rows[0]), t.active_marker);
    assert_eq!(dot(&s.rows[1]), t.unread_activity);
    assert_eq!(dot(&s.rows[2]), t.dot_default);
    assert!(s.rows[1].spans[1].style.add_modifier.bold, "unread names are bold");
    assert!(!s.rows[2].spans[1].style.add_modifier.bold);
    assert_eq!(s.border, t.selection);
    assert_eq!(s.selected, 0);
    assert_eq!(s.highlight.bg, Some(t.selection));
    assert_eq!((s.background, s.rounded), (t.panel, true));
    assert_eq!(s.divider, Rect::new(25, 37, 1, 3));

    chats[0].lifecycle = ChatLifecycle::Running { request_id: "a".to_owned() };
    chats[2].lifecycle = ChatLifecycle::Awaiting { request_id: "b".to_owned() };
    let s = render_sidebar(&chats, 1, Focus::Sidebar, &t, area, FRAME);
    assert_eq!(texts(&s.rows), ["\u{25cf} one", "\u{25cf} two lines", "\u{25c6} three"]);
    assert_eq!(dot(&s.rows[0]), t.green);
    assert_eq!(dot(&s.rows[2]), t.yellow);
    assert_eq!(s.border, t.blue);
    assert_eq!(s.title.spans[0].style.fg, Some(t.cyan));
}

#[test]
fn token_counts_are_short_and_never_rounded_up() {
    assert_eq!(human_tokens(0), "0");
    assert_eq!(human_tokens(999), "999");
    assert_eq!(human_tokens(1_000), "1.0k");
    assert_eq!(human_tokens(12_399), "12.3k");
    assert_eq!(human_tokens(999_999), "999.9k");
    assert_eq!(human_tokens(1_250_000), "1.2M");
}

fn usage(input_tokens: u64, context_window: Option<u64>) -> Usage {
    Usage { input_tokens, output_tokens: 0, context_window }
}

#[test]
fn context_usage_is_a_floored_percentage() {
    assert_eq!(
        context_usage_segment(&usage(12_345, Some(200_000))),
        " \u{00b7} ctx 6% (12.3k/200.0k)"
    );
    assert_eq!(context_usage_segment(&usage(12_345, None)), " \u{00b7} ctx 12.3k");
    assert_eq!(context_usage_segment(&usage(7, Some(0))), " \u{00b7} ctx 7");
}

#[test]
fn strips_are_cut_from_the_left() {
    assert_eq!(left_truncate_ellipsis("/home/user/project", 8), "\u{2026}project");
    assert_eq!(left_truncate_ellipsis("short", 8), "short");
    assert_eq!(left_truncate_ellipsis("anything", 0), "");
    assert_eq!(
        left_truncate_ellipsis("\u{4e2d}\u{6587}\u{5b57}", 4),
        "\u{2026}\u{5b57}",
        "a wide glyph is dropped whole"
    );
    assert_eq!(truncate_for_title("pattern", 12), "pattern");
    assert_eq!(truncate_for_title("a very long pattern", 12), "a very long \u{2026}");
}

#[test]
fn the_strip_names_cwd_model_and_usage() {
    assert_eq!(status_strip_text(None, None, None, 80), "cwd: \u{2014} \u{00b7} \u{2014}");
    assert_eq!(
        status_strip_text(Some("/a/b/c"), Some("glm-5.2"), Some(&usage(10, None)), 80),
        "cwd: /a/b/c \u{00b7} glm-5.2 \u{00b7} ctx 10"
    );
    assert_eq!(
        status_strip_text(Some("/a/long/path"), Some("glm"), None, 16),
        "cwd: \u{2026}path \u{00b7} glm"
    );
    let t = Theme::tokyo_night();
    let left = " #1/1 \u{00b7} x ";
    assert!(status_strip_title(None, None, None, &t, 13, left).is_none(), "no room");
    let strip = status_strip_title(Some("/w"), Some("m"), None, &t, 60, left).expect("room");
    assert_eq!(strip.plain_text(), "cwd: /w \u{00b7} m");
    assert_eq!(strip.spans[0].style.fg, Some(t.dim));
}

#[test]
fn snippets_keep_sixteen_characters_around_a_hit() {
    let line = "0123456789abcdefghijNEEDLEklmnopqrstuvwxyz";
    assert_eq!(
        search_snippet_from(line, 20, "needle"),
        "\u{2026}456789abcdefghijNEEDLEklmnopqrstuvwxyz"
    );
    assert_eq!(
        search_snippet_from(line, 0, "0"),
        "0123456789abcdefg\u{2026}"
    );
    assert_eq!(search_snippet_from("hit", 0, ""), "hit");
}

#[test]
fn answers_carry_their_own_model() {
    let t = Theme::tokyo_night();
    let labelled = assistant_header_line(Some(" glm-5.2 "), &t);
    assert_eq!(labelled.plain_text(), "\u{25cf} Chibi (glm-5.2)");
    assert_eq!(labelled.spans[1].style.fg, Some(t.dim));
    assert_eq!(assistant_header_line(Some("  "), &t).plain_text(), "\u{25cf} Chibi");
    assert_eq!(assistant_header_line(None, &t).plain_text(), "\u{25cf} Chibi");
}

#[test]
fn only_the_last_ten_thoughts_show() {
    let t = Theme::tokyo_night();
    let many: Vec<String> = (1..=12).map(|i| format!("t{i}")).collect();
    let block = thoughts_block_lines(&many.join("\n"), &t);
    assert_eq!(block.len(), 10);
    assert_eq!(block[0].plain_text(), "\u{2026}t3");
    assert_eq!(block[9].plain_text(), "t12");
    assert_eq!(block[9].spans[0].style.fg, Some(t.dim));
    assert_eq!(texts(&thoughts_block_lines("a\nb", &t)), ["a", "b"]);
}

#[test]
fn the_spinner_line_follows_the_active_chat() {
    let t = Theme::tokyo_night();
    let running = ChatLifecycle::Running { request_id: "r".to_owned() };
    let awaiting = ChatLifecycle::Awaiting { request_id: "r".to_owned() };
    assert!(render_spinner_line(&ChatLifecycle::Idle, None, '|', &t).is_none());
    let idle = render_spinner_line(&ChatLifecycle::Idle, Some(2), '|', &t).expect("subagents");
    assert_eq!(idle.plain_text(), " \u{00b7} subagents working: 2");
    assert_eq!(idle.spans[0].style.fg, Some(t.green));
    let queued = render_spinner_line(&awaiting, None, '|', &t).expect("busy");
    assert_eq!(queued.plain_text(), " | queued\u{2026}");
    let busy = render_spinner_line(&running, Some(1), '/', &t).expect("busy");
    assert_eq!(busy.plain_text(), " / thinking\u{2026} \u{00b7} subagents working: 1");
    assert_eq!(busy.spans[0].style.fg, Some(t.purple));
}

fn facts(connection: Connection) -> StatusFacts<'static> {
    StatusFacts {
        connection,
        message: None,
        clone_supported: false,
        normal_mode: true,
        thoughts_visible: false,
        log_total: 0,
        log_seen: 0,
    }
}

#[test]
fn the_status_line_holds_hints_and_the_connection() {
    let t = Theme::tokyo_night();
    assert_eq!(connection_status(Connection::Connected), ("\u{25cf} connected", t.green));
    assert_eq!(
        connection_status(Connection::Connecting),
        ("\u{25cf} connecting\u{2026}", t.yellow)
    );
    let base = render_status(&facts(Connection::Connected), &t).line.plain_text();
    assert!(base.starts_with("   ^/\u{2325}\u{2191}\u{2193} chats \u{00b7} ^N"), "{base}");
    assert!(base.ends_with(" \u{00b7} F1 help \u{00b7} ^S off  \u{25cf} connected"), "{base}");
    let modal = StatusFacts { normal_mode: false, log_total: 9, ..facts(Connection::Connected) };
    assert!(render_status(&modal, &t).line.plain_text().ends_with("F1 help  \u{25cf} connected"));
    let toast = StatusFacts { message: Some("busy"), ..facts(Connection::Connected) };
    assert_eq!(render_status(&toast, &t).line.plain_text(), "  busy  \u{25cf} connected");
}

#[test]
fn the_fullest_hint_row_fits_120_columns() {
    let t = Theme::tokyo_night();
    let full = StatusFacts {
        clone_supported: true,
        log_total: 5,
        log_seen: 4,
        ..facts(Connection::Disconnected)
    };
    let row = render_status(&full, &t).line.plain_text();
    assert!(row.contains(" \u{00b7} ^P \u{00b7} ^S off \u{00b7} log*"), "{row}");
    assert_eq!(unicode_width::UnicodeWidthStr::width(row.as_str()), 119);
}

#[test]
fn the_rename_line_keeps_its_hint_at_the_right_edge() {
    let t = Theme::tokyo_night();
    let surface = render_rename_line("title\nsecond", 93, &t);
    assert_eq!(surface.background, t.input_panel_bg);
    let lines = surface.rows;
    assert_eq!(lines.len(), 2);
    let head = lines[0].plain_text();
    assert!(head.starts_with("\u{276f} \u{270e} Rename thread\u{2026} title "), "{head}");
    assert!(head.ends_with("\u{23ce} save \u{00b7} esc cancel "), "{head}");
    assert_eq!(unicode_width::UnicodeWidthStr::width(head.as_str()), 93);
    assert_eq!(lines[1].plain_text(), "second");
}

#[test]
fn the_input_block_shows_a_placeholder_or_the_draft() {
    let t = Theme::tokyo_night();
    let column = Rect::new(26, 38, 93, 1);
    match render_input(&vec![String::new()], Focus::Sidebar, column, &t) {
        InputSurface::Blank { line, background } => {
            assert_eq!(background, t.input_panel_bg);
            let text = line.plain_text();
            assert!(text.starts_with("\u{276f} Type a message\u{2026} "), "{text}");
            assert!(text.ends_with("\u{23ce} send "), "{text}");
            assert_eq!(unicode_width::UnicodeWidthStr::width(text.as_str()), 93);
            assert_eq!(line.spans[0].style.fg, Some(t.dim), "typing goes nowhere");
        }
        other => panic!("expected Blank, got {other:?}"),
    }
    let grown = Rect::new(26, 36, 93, 3);
    match render_input(&vec![String::new(), "x".to_owned()], Focus::Chat, grown, &t) {
        InputSurface::Draft { marker, marker_area, text_area, chip, chip_area, background } => {
            assert_eq!(marker.plain_text(), "\u{276f} ");
            assert_eq!(marker.spans[0].style.fg, Some(t.cyan));
            assert_eq!(marker_area, Some(Rect::new(26, 36, 2, 1)));
            assert_eq!(text_area, Some(Rect::new(28, 36, 91, 3)));
            assert_eq!(chip_area, Some(Rect::new(112, 36, 7, 1)));
            assert_eq!(chip.plain_text(), "\u{23ce} send ");
            assert_eq!(chip.spans[0].style.fg, Some(t.selection));
            assert_eq!(background, t.input_panel_bg);
        }
        other => panic!("expected Draft, got {other:?}"),
    }
    match render_input(&vec!["x".to_owned()], Focus::Chat, column, &t) {
        InputSurface::Draft { chip_area, .. } => assert_eq!(chip_area, None, "one row, no chip"),
        other => panic!("expected Draft, got {other:?}"),
    }
}

#[test]
fn the_scroll_hint_sits_at_the_right_end() {
    let t = Theme::tokyo_night();
    let row = Rect::new(0, 37, 120, 1);
    let (area, line) = render_scroll_hint(true, &t, row).expect("room");
    assert_eq!(line.plain_text(), "\u{2191} more ");
    assert_eq!(area, Rect::new(113, 37, 7, 1));
    let (area, line) = render_scroll_hint(false, &t, row).expect("room");
    assert_eq!(line.plain_text(), "\u{2191}\u{2193} more ");
    assert_eq!(area.width, 8);
    assert!(render_scroll_hint(true, &t, Rect::new(0, 0, 7, 1)).is_none());
}

#[test]
fn lines_wrap_at_words_and_lose_the_breaking_spaces() {
    let (rows, ranges) = wrap_line_rows_indexed(&plain("hello wide  world"), 8);
    assert_eq!(texts(&rows), ["hello", "wide", "world"]);
    assert_eq!(ranges, [(0, 5), (6, 10), (12, 17)]);
    assert_eq!(texts(&wrap_line_rows(&plain("a  b"), 8)), ["a  b"]);
    assert_eq!(texts(&wrap_line_rows(&plain(""), 8)), [""]);
    let (rows, ranges) = wrap_line_rows_indexed(&plain("abcde  "), 5);
    assert_eq!(texts(&rows), ["abcde"], "no room, no space");
    assert_eq!(ranges, [(0, 5)]);
    assert_eq!(texts(&wrap_line_rows(&plain("abc   "), 5)), ["abc  "], "what fits is kept");
    assert_eq!(texts(&wrap_line_rows(&plain("   "), 2)), ["  "]);
    assert_eq!(texts(&wrap_line_rows(&plain("abcdefghij"), 4)), ["abcd", "efgh", "ij"]);
}

#[test]
fn wide_glyphs_never_straddle_a_row() {
    assert_eq!(
        texts(&wrap_line_rows(&plain("\u{4e2d}\u{6587}\u{5b57}"), 3)),
        ["\u{4e2d}", "\u{6587}", "\u{5b57}"]
    );
    assert_eq!(
        texts(&wrap_line_rows(&plain("a\u{4e2d}"), 1)),
        ["a", "\u{4e2d}"],
        "a glyph wider than the row stands alone"
    );
}

#[test]
fn styles_survive_a_wrap() {
    let t = Theme::tokyo_night();
    let line = Line::from_spans(vec![
        Span::styled("red text ".to_owned(), Style::new().fg(t.red)),
        Span::raw("plain".to_owned()),
    ]);
    let rows = wrap_line_rows(&line, 6);
    assert_eq!(texts(&rows), ["red", "text", "plain"]);
    assert_eq!(rows[1].spans[0].style.fg, Some(t.red));
    assert_eq!(rows[2].spans[0].style.fg, None);
}

#[test]
fn characters_map_to_the_row_that_shows_them() {
    let line = plain("hello wide  world");
    assert_eq!(wrapped_row_of_char(&line, 0, 8), 0);
    assert_eq!(wrapped_row_of_char(&line, 5, 8), 1, "a dropped space belongs to what follows");
    assert_eq!(wrapped_row_of_char(&line, 9, 8), 1);
    assert_eq!(wrapped_row_of_char(&line, 12, 8), 2);
    assert_eq!(wrapped_row_of_char(&line, 99, 8), 2);
}

#[test]
fn every_row_knows_its_line() {
    let lines = vec![plain("one two"), plain(""), plain("three")];
    let (rows, first, meta) = wrap_message_rows_full(&lines, 3);
    assert_eq!(texts(&rows), ["one", "two", "", "thr", "ee"]);
    assert_eq!(first, [0, 2, 3]);
    let facts: Vec<(usize, usize, usize, &str)> =
        meta.iter().map(|m| (m.logical, m.start, m.end, m.text.as_str())).collect();
    assert_eq!(
        facts,
        [(0, 0, 3, "one"), (0, 4, 7, "two"), (1, 0, 0, ""), (2, 0, 3, "thr"), (2, 3, 5, "ee")]
    );
    assert_eq!(wrap_message_rows_indexed(&lines, 3).1, first);
    assert_eq!(texts(&wrap_message_rows(&lines, 3)), texts(&rows));
}

#[test]
fn scrolling_counts_from_the_bottom() {
    assert_eq!(scroll_skip(0, true, 100, 20), 80);
    assert_eq!(scroll_skip(30, false, 100, 20), 50);
    assert_eq!(scroll_skip(500, false, 100, 20), 0);
    assert_eq!(scroll_skip(5, false, 10, 20), 0);
    assert_eq!(scroll_skip(0, true, 3, 0), 2);
}

#[test]
fn jumps_put_the_hit_one_row_below_the_top() {
    assert_eq!(scroll_for_search_jump(50, 100, 20), 31);
    assert_eq!(scroll_skip(31, false, 100, 20), 49);
    assert_eq!(scroll_for_search_jump(0, 100, 20), 80);
    assert_eq!(scroll_for_search_jump(99, 100, 20), 0);
    let lines = vec![plain("head"), plain("one two three"), plain("")];
    let ranges = vec![(0, 3)];
    let first = wrap_message_rows_indexed(&lines, 5).1;
    let row = |line: usize, col: usize| {
        search_jump_wrapped_row(&ranges, &first, &lines, 5, 0, line, col)
    };
    assert_eq!(row(0, 0), Some(1));
    assert_eq!(row(0, 8), Some(3), "the row that shows the hit");
    assert_eq!(row(2, 0), None, "the message has changed");
    assert_eq!(search_jump_wrapped_row(&ranges, &first, &lines, 5, 1, 0, 0), None);
}

#[test]
fn selected_characters_are_reversed_and_the_rest_untouched() {
    let mut rows = vec![plain("first"), plain("second"), plain("third")];
    let sel = ChatSelection {
        anchor: ChatPos { row: 1, col: 4 },
        head: ChatPos { row: 0, col: 3 },
        dragging: true,
    };
    apply_selection_highlight(&mut rows, &sel);
    let pieces = |line: &Line| -> Vec<(String, bool)> {
        line.spans
            .iter()
            .map(|s| (s.content.clone(), s.style.add_modifier.reversed))
            .collect()
    };
    assert_eq!(pieces(&rows[0]), [("fir".to_owned(), false), ("st".to_owned(), true)]);
    assert_eq!(pieces(&rows[1]), [("seco".to_owned(), true), ("nd".to_owned(), false)]);
    assert_eq!(pieces(&rows[2]), [("third".to_owned(), false)]);
    assert_eq!(rows[2].spans[0].style.add_modifier, Modifiers::none());
}

#[test]
fn the_transcript_shows_roles_labels_and_thoughts() {
    let t = Theme::tokyo_night();
    let hl = Highlighter::new();
    let messages = vec![
        Message::user("hi"),
        Message::assistant("hello"),
        Message::user("more"),
        Message::assistant_pending(),
    ];
    let labels = vec![None, Some("glm".to_owned()), None, None];
    let (lines, ranges) = transcript_lines(&messages, &labels, Some("why\nnot"), &t, &hl);
    assert_eq!(
        texts(&lines),
        [
            "\u{25cf} You", "hi", "", "\u{25cf} Chibi (glm)", "hello", "", "\u{25cf} You",
            "more", "", "why", "not", "\u{25cf} Chibi", "", ""
        ]
    );
    assert_eq!(ranges, [(0, 3), (3, 6), (6, 9), (11, 14)], "reasoning belongs to no message");
    let (hidden, _) = transcript_lines(&messages, &labels, None, &t, &hl);
    assert_eq!(hidden.len(), 12);
}

fn window(scroll: u16) -> ChatWindow {
    ChatWindow { active: 0, scroll, global_jump: None, jump: None, selection: None }
}

#[test]
fn the_chat_view_follows_the_bottom_and_jumps_to_hits() {
    let t = Theme::tokyo_night();
    let hl = Highlighter::new();
    let messages: Vec<Message> = (0..20).map(|i| Message::user(&format!("line {i}"))).collect();
    let labels: Vec<Option<String>> = Vec::new();
    let content = ChatContent {
        messages: &messages,
        labels: &labels,
        thoughts: Some("hidden"),
        thoughts_visible: false,
    };
    let inner = Rect::new(27, 1, 92, 10);
    let spinner = Rect::new(0, 37, 120, 1);
    let s = render_chat(&content, &window(0), inner, spinner, &t, &hl);
    assert_eq!(s.rows.len(), 60);
    assert_eq!(s.skip, 50);
    assert_eq!(s.hint.expect("overflow").1.plain_text(), "\u{2191} more ");

    let jump = Jump { message_index: 5, line_index: 0, char_offset: 2 };
    let jumped = ChatWindow { jump: Some(jump), ..window(0) };
    let s = render_chat(&content, &jumped, inner, spinner, &t, &hl);
    assert_eq!(s.skip, 15, "the hit's row is 16");
    assert_eq!(s.scroll, 35);
    assert_eq!(s.meta[16].text, "line 5");
    let elsewhere = ChatWindow { global_jump: Some((1, jump)), ..window(7) };
    let s = render_chat(&content, &elsewhere, inner, spinner, &t, &hl);
    assert_eq!(s.scroll, 7, "a hit in another chat moves nothing");
    let here = ChatWindow { global_jump: Some((0, jump)), ..window(7) };
    assert_eq!(render_chat(&content, &here, inner, spinner, &t, &hl).scroll, 35);
}

#[test]
fn a_hit_below_shown_reasoning_is_found_where_it_is_painted() {
    let t = Theme::tokyo_night();
    let hl = Highlighter::new();
    let messages = vec![Message::user("question"), Message::assistant("first\nneedle")];
    let labels: Vec<Option<String>> = Vec::new();
    let jump = Jump { message_index: 1, line_index: 1, char_offset: 0 };
    let inner = Rect::new(27, 1, 92, 2);
    let spinner = Rect::new(0, 37, 120, 1);
    for visible in [false, true] {
        let content = ChatContent {
            messages: &messages,
            labels: &labels,
            thoughts: Some("one\ntwo\nthree"),
            thoughts_visible: visible,
        };
        let jumped = ChatWindow { jump: Some(jump), ..window(0) };
        let s = render_chat(&content, &jumped, inner, spinner, &t, &hl);
        let shown: Vec<String> = texts(&s.rows[s.skip..s.skip + 2]);
        assert_eq!(shown[1], s.meta[s.skip + 1].text);
        assert!(shown.iter().any(|l| l.contains("needle")), "{visible} {shown:?}");
    }
}

#[test]
fn the_chat_frame_carries_title_and_strip() {
    let t = Theme::tokyo_night();
    assert_eq!(chat_view_title(0, 3, "a\nb"), " #1/3 \u{00b7} a b ");
    let area = Rect::new(26, 0, 94, 37);
    let hidden = StripFacts { visible: false, cwd: Some("/w"), model: None, usage: None };
    let f = chat_frame(0, 3, "a", &hidden, area, &t);
    assert_eq!(f.title.plain_text(), " #1/3 \u{00b7} a ");
    assert_eq!(f.title.spans[0].style.fg, Some(t.blue));
    assert!(f.title.spans[0].style.add_modifier.bold);
    assert_eq!((f.border, f.background, f.rounded), (t.selection, t.bg, true));
    assert!(f.strip.is_none());
    assert_eq!(f.inner, Rect::new(27, 1, 92, 35));
    let shown = StripFacts { visible: true, ..hidden };
    let strip = chat_frame(0, 3, "a", &shown, area, &t).strip.expect("visible");
    assert_eq!(strip.plain_text(), "cwd: /w \u{00b7} \u{2014}");
}

#[test]
fn known_languages_are_highlighted() {
    let hl = Highlighter::new();
    assert!(hl.syntax_for("rust").is_some());
    assert!(hl.syntax_for("no-such-language").is_none());
    let lines = hl.highlight("rust", "let x = 1;\nlet y;");
    assert_eq!(lines.len(), 2);
    let regions = lines[0].as_ref().expect("highlighted");
    let text: String = regions.iter().map(|r| r.text.as_str()).collect();
    assert_eq!(text.trim_end(), "let x = 1;");
    assert!(regions.iter().any(|r| r.color != regions[0].color), "several colors");
    let plain = hl.highlight("no-such-language", "words");
    assert_eq!(plain.len(), 1);
}

#[test]
fn one_theme_is_bundled() {
    assert_eq!(Theme::bundled(), [Theme::tokyo_night()]);
}
