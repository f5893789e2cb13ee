//! Mouse routing and text selection.

use chibi_tui::app::{
    ChatPos, ChatRowMeta, ChatSelection, Focus, GlobalSearchState, LogViewerState, Mode,
    ModelPickerPhase, ModelPickerState, SearchState, StopResetAction,
};
use chibi_tui::mouse::{
    apply_wheel, handle_mouse, handle_mouse_with_copy, wheel_surface, MouseAction, MouseEvent,
    MouseFacts, MouseKind, PointerState, WheelState, WheelSurface, WHEEL_STEP,
};
use chibi_tui::selection::{selected_text, ChatGeometry};
use chibi_tui::style::{Line, Rect, Style};
use chibi_tui::transcript::wrap_message_rows_full;
use chibi_tui::ui::layout::layout_rects;

/// Sidebar columns 0..=25, chat columns 26.., chrome rows 37..39.
const WHEEL_AREA: Rect = Rect { x: 0, y: 0, width: 120, height: 40 };

fn at(kind: MouseKind, column: u16, row: u16) -> MouseEvent {
    MouseEvent { kind, column, row }
}

fn facts<'a>(mode: &'a Mode, focus: Focus, point: Option<ChatPos>) -> MouseFacts<'a> {
    MouseFacts {
        mode,
        focus,
        error_popup: false,
        quit_confirm: false,
        input_height: 1,
        point,
    }
}

fn state(chats: usize) -> WheelState {
    WheelState {
        scroll: 0,
        active: 0,
        chats,
        log_cursor: 0,
        log_lines: 0,
        help_scroll: 0,
        help_most: 60,
        picked: 0,
        models: 0,
    }
}

fn notch(state: &mut WheelState, mode: &Mode, focus: Focus, event: MouseEvent) {
    let action = handle_mouse(&facts(mode, focus, None), event, WHEEL_AREA);
    apply_wheel(state, action);
}

#[test]
fn wheel_up_over_the_chat_unpins_from_follow_bottom_by_the_wheel_step() {
    let mut s = state(1);
    notch(&mut s, &Mode::Normal, Focus::Chat, at(MouseKind::ScrollUp, 60, 10));
    assert_eq!(s.scroll, 3, "one notch = WHEEL_STEP rows");
    notch(&mut s, &Mode::Normal, Focus::Chat, at(MouseKind::ScrollUp, 60, 10));
    assert_eq!(s.scroll, 6);
}

#[test]
fn wheel_down_over_the_chat_returns_to_follow_bottom() {
    let mut s = state(1);
    s.scroll = 6;
    for expected in [3, 0, 0] {
        notch(&mut s, &Mode::Normal, Focus::Chat, at(MouseKind::ScrollDown, 60, 10));
        assert_eq!(s.scroll, expected);
    }
}

#[test]
fn wheel_over_the_sidebar_without_focus_does_nothing() {
    let mut s = state(3);
    notch(&mut s, &Mode::Normal, Focus::Chat, at(MouseKind::ScrollDown, 10, 5));
    assert_eq!(s.active, 0, "hovering must never switch threads");
    notch(&mut s, &Mode::Normal, Focus::Chat, at(MouseKind::ScrollUp, 10, 5));
    assert_eq!(s.active, 0);
    assert_eq!(s.scroll, 0, "sidebar hover never scrolls the chat either");
}

#[test]
fn wheel_over_the_focused_sidebar_moves_the_selection() {
    let mut s = state(3);
    notch(&mut s, &Mode::Normal, Focus::Sidebar, at(MouseKind::ScrollDown, 10, 5));
    assert_eq!(s.active, 1, "wheel down = next thread (live switching)");
    notch(&mut s, &Mode::Normal, Focus::Sidebar, at(MouseKind::ScrollUp, 10, 5));
    assert_eq!(s.active, 0, "wheel up = previous thread");
    notch(&mut s, &Mode::Normal, Focus::Sidebar, at(MouseKind::ScrollUp, 10, 5));
    assert_eq!(s.active, 0);
    for _ in 0..5 {
        notch(&mut s, &Mode::Normal, Focus::Sidebar, at(MouseKind::ScrollDown, 10, 5));
    }
    assert_eq!(s.active, 2, "the bottom clamps too");
}

#[test]
fn wheel_over_the_chrome_rows_is_ignored() {
    let mut s = state(2);
    for row in [37, 38, 39] {
        notch(&mut s, &Mode::Normal, Focus::Chat, at(MouseKind::ScrollUp, 60, row));
        notch(&mut s, &Mode::Normal, Focus::Chat, at(MouseKind::ScrollDown, 60, row));
    }
    assert_eq!(s.scroll, 0);
    assert_eq!(s.active, 0);
}

#[test]
fn non_wheel_mouse_events_are_ignored() {
    let mut s = state(2);
    s.scroll = 9;
    for kind in [MouseKind::LeftDown, MouseKind::LeftUp, MouseKind::LeftDrag, MouseKind::Other] {
        notch(&mut s, &Mode::Normal, Focus::Chat, at(kind, 60, 10));
        notch(&mut s, &Mode::Normal, Focus::Chat, at(kind, 10, 5));
    }
    assert_eq!(s.scroll, 9, "clicks/drag/motion never touch the scroll");
    assert_eq!(s.active, 0);
}

#[test]
fn wheel_inside_the_open_help_modal_scrolls_the_table() {
    let mut s = state(1);
    let mode = Mode::HelpViewing { scroll: 0 };
    notch(&mut s, &mode, Focus::Chat, at(MouseKind::ScrollDown, 60, 10));
    assert_eq!(s.help_scroll, 3, "three lines per notch");
    notch(&mut s, &mode, Focus::Chat, at(MouseKind::ScrollUp, 10, 5));
    assert_eq!(s.help_scroll, 0, "clamped at the top edge");
    for _ in 0..40 {
        notch(&mut s, &mode, Focus::Chat, at(MouseKind::ScrollDown, 10, 5));
    }
    assert_eq!(s.help_scroll, 60);
}

fn log_viewer() -> Mode {
    Mode::LogViewer {
        state: LogViewerState {
            lines: Vec::new(),
            cursor: 0,
            wrap: false,
            snapshot_total: 0,
            row_offset: 0,
            search_buf: None,
            search: None,
            copy_note: None,
        },
    }
}

#[test]
fn wheel_inside_the_open_log_viewer_moves_the_cursor() {
    let mut s = state(1);
    s.log_cursor = 5;
    s.log_lines = 10;
    let mode = log_viewer();
    notch(&mut s, &mode, Focus::Chat, at(MouseKind::ScrollUp, 60, 10));
    assert_eq!(s.log_cursor, 2, "wheel up walks three logical lines up");
    notch(&mut s, &mode, Focus::Chat, at(MouseKind::ScrollDown, 60, 10));
    notch(&mut s, &mode, Focus::Chat, at(MouseKind::ScrollDown, 60, 10));
    assert_eq!(s.log_cursor, 8);
}

fn picker() -> Mode {
    Mode::ModelPicking {
        state: ModelPickerState {
            phase: ModelPickerPhase::Ready,
            entries: Vec::new(),
            selected: 0,
        },
    }
}

#[test]
fn wheel_inside_the_open_model_picker_moves_the_selection() {
    let mut s = state(1);
    s.models = 10;
    let mode = picker();
    notch(&mut s, &mode, Focus::Chat, at(MouseKind::ScrollDown, 60, 10));
    assert_eq!(s.picked, 3, "wheel down walks three rows");
    for _ in 0..10 {
        notch(&mut s, &mode, Focus::Chat, at(MouseKind::ScrollDown, 60, 10));
    }
    assert_eq!(s.picked, 9);
    notch(&mut s, &mode, Focus::Chat, at(MouseKind::ScrollUp, 60, 10));
    assert_eq!(s.picked, 6);
}

#[test]
fn modal_surfaces_take_the_wheel_and_nothing_else() {
    assert_eq!(wheel_surface(&log_viewer()), WheelSurface::LogViewer);
    assert_eq!(wheel_surface(&picker()), WheelSurface::ModelPicker);
    assert_eq!(wheel_surface(&Mode::HelpViewing { scroll: 0 }), WheelSurface::Help);
    let others = [
        Mode::Normal,
        Mode::Renaming { buf: String::new() },
        Mode::ConfirmDelete,
        Mode::ConfirmStopReset { action: StopResetAction::Stop },
        Mode::Searching {
            state: SearchState { query: String::new(), matches: Vec::new(), selected: 0 },
        },
        Mode::SearchingAll {
            state: GlobalSearchState { query: String::new(), matches: Vec::new(), selected: 0 },
        },
    ];
    for mode in &others {
        assert_eq!(wheel_surface(mode), WheelSurface::Panels);
    }
    let press = at(MouseKind::LeftDown, 60, 10);
    let point = Some(ChatPos { row: 0, col: 0 });
    assert_eq!(
        handle_mouse(&facts(&picker(), Focus::Chat, point), press, WHEEL_AREA),
        MouseAction::Nothing
    );
}

/// The rows of a transcript: a header, then `text`, on a screen of
/// [`WHEEL_AREA`].
fn geometry(text: &str) -> ChatGeometry {
    let lines = vec![
        Line::styled("\u{25cf} Chibi".to_owned(), Style::new()),
        Line::styled(text.to_owned(), Style::new()),
    ];
    let rects = layout_rects(WHEEL_AREA, 1);
    let inner = Rect::new(
        rects.chat.x + 1,
        rects.chat.y + 1,
        rects.chat.width - 2,
        rects.chat.height - 2,
    );
    let (_, _, rows) = wrap_message_rows_full(&lines, inner.width as usize);
    ChatGeometry { chat_id: "c".to_owned(), inner, skip: 0, rows }
}

struct Pointer {
    geometry: ChatGeometry,
    selection: Option<ChatSelection>,
    copied: Vec<String>,
}

impl Pointer {
    fn new(text: &str) -> Self {
        Pointer { geometry: geometry(text), selection: None, copied: Vec::new() }
    }

    fn button(&mut self, mode: &Mode, quit_confirm: bool, kind: MouseKind, column: u16, row: u16) {
        let f = MouseFacts { quit_confirm, ..facts(mode, Focus::Chat, None) };
        let mut pointer = PointerState { wheel: state(1), selection: self.selection };
        let event = at(kind, column, row);
        let copied =
            handle_mouse_with_copy(&mut pointer, &f, Some(&self.geometry), event, WHEEL_AREA);
        self.selection = pointer.selection;
        self.copied.extend(copied);
    }

    fn normal(&mut self, kind: MouseKind, column: u16, row: u16) {
        self.button(&Mode::Normal, false, kind, column, row);
    }
}

#[test]
fn press_drag_release_selects_and_copies_through_the_seam() {
    let mut p = Pointer::new("hello world from selection");
    p.normal(MouseKind::LeftDown, 27, 2);
    assert!(p.selection.as_ref().is_some_and(|s| s.dragging), "press starts the live drag");
    p.normal(MouseKind::LeftDrag, 38, 2);
    p.normal(MouseKind::LeftUp, 40, 2);
    let sel = p.selection.expect("real selection held after release");
    assert!(!sel.dragging, "released");
    assert_eq!(p.copied, ["hello world"], "the release copied the selected plain text");
}

#[test]
fn plain_click_clears_and_copies_nothing() {
    let mut p = Pointer::new("text here");
    p.normal(MouseKind::LeftDown, 27, 2);
    p.normal(MouseKind::LeftDrag, 31, 2);
    p.normal(MouseKind::LeftUp, 31, 2);
    assert!(p.selection.is_some(), "drag held a selection");
    assert_eq!(p.copied, ["text"], "the drag release copied the selection");

    p.copied.clear();
    p.normal(MouseKind::LeftDown, 31, 2);
    p.normal(MouseKind::LeftUp, 31, 2);
    assert!(p.selection.is_none(), "plain click cleared");
    assert!(p.copied.is_empty(), "plain click copied nothing");
}

#[test]
fn press_outside_the_chat_pane_clears_the_selection() {
    let mut p = Pointer::new("text here");
    p.normal(MouseKind::LeftDown, 27, 2);
    p.normal(MouseKind::LeftDrag, 31, 2);
    assert!(p.selection.is_some(), "precondition");
    p.normal(MouseKind::LeftDown, 10, 5);
    assert!(p.selection.is_none(), "sidebar press cleared");
}

#[test]
fn wheel_during_a_drag_scrolls_without_moving_the_head() {
    let mut p = Pointer::new("hello world");
    p.normal(MouseKind::LeftDown, 27, 2);
    p.normal(MouseKind::LeftDrag, 35, 2);
    let head_before = p.selection.expect("live drag").head;
    let mut s = state(1);
    notch(&mut s, &Mode::Normal, Focus::Chat, at(MouseKind::ScrollUp, 60, 10));
    p.normal(MouseKind::ScrollUp, 60, 10);
    assert_eq!(s.scroll, WHEEL_STEP, "the wheel still scrolls");
    assert_eq!(p.selection.expect("drag survives the wheel").head, head_before);
}

#[test]
fn selection_presses_are_ignored_while_a_modal_is_open() {
    let mut p = Pointer::new("text here");
    p.normal(MouseKind::LeftDown, 27, 2);
    p.normal(MouseKind::LeftDrag, 31, 2);
    assert!(p.selection.is_some(), "precondition");
    p.button(&Mode::ConfirmDelete, false, MouseKind::LeftDown, 30, 2);
    assert!(
        matches!(p.selection, Some(ChatSelection { dragging: true, .. })),
        "popup press must not start a new selection nor clear"
    );
}

#[test]
fn selection_under_quit_confirm_is_swallowed() {
    let mut p = Pointer::new("text here");
    p.normal(MouseKind::LeftDown, 27, 2);
    p.normal(MouseKind::LeftDrag, 31, 2);
    p.button(&Mode::Normal, true, MouseKind::LeftDown, 34, 2);
    assert!(
        matches!(p.selection, Some(ChatSelection { dragging: true, .. })),
        "press under the popup must not start a selection nor clear"
    );
    p.button(&Mode::Normal, true, MouseKind::LeftUp, 34, 2);
    assert!(p.copied.is_empty(), "release under the popup copies nothing");
    let mut s = state(1);
    let f = MouseFacts { quit_confirm: true, ..facts(&Mode::Normal, Focus::Chat, None) };
    apply_wheel(&mut s, handle_mouse(&f, at(MouseKind::ScrollUp, 60, 10), WHEEL_AREA));
    assert_eq!(s.scroll, WHEEL_STEP, "the wheel stays live under the popup");
}

fn meta(logical: usize, start: usize, text: &str) -> ChatRowMeta {
    ChatRowMeta { logical, start, end: start + text.chars().count(), text: text.to_owned() }
}

#[test]
fn wrap_points_are_no_line_breaks_in_copied_text() {
    let rows = vec![meta(0, 0, "first"), meta(1, 0, "one two"), meta(1, 8, "three"), meta(2, 0, "end")];
    let sel = ChatSelection {
        anchor: ChatPos { row: 3, col: 2 },
        head: ChatPos { row: 0, col: 2 },
        dragging: false,
    };
    assert_eq!(selected_text(&rows, &sel), "rst\none two three\nen");
    let none: Vec<ChatRowMeta> = Vec::new();
    assert_eq!(selected_text(&none, &sel), "");
}

#[test]
fn selecting_a_wrapped_line_gives_the_line_back() {
    let text = "the quick brown fox jumps over the lazy dog";
    let (_, _, rows) = wrap_message_rows_full(&vec![Line::styled(text.to_owned(), Style::new())], 10);
    assert!(rows.len() > 3, "it wraps");
    let last = rows.len() - 1;
    let sel = ChatSelection {
        anchor: ChatPos { row: 0, col: 0 },
        head: ChatPos { row: last, col: rows[last].text.chars().count() },
        dragging: false,
    };
    assert_eq!(selected_text(&rows, &sel), text);
}

#[test]
fn positions_follow_the_columns_on_screen() {
    let g = ChatGeometry {
        chat_id: String::new(),
        inner: Rect::new(5, 2, 10, 3),
        skip: 1,
        rows: vec![meta(0, 0, "hidden"), meta(1, 0, "\u{4e2d}\u{6587}x"), meta(2, 0, "")],
    };
    assert_eq!(g.position_at(5, 2), Some(ChatPos { row: 1, col: 0 }));
    assert_eq!(g.position_at(6, 2), Some(ChatPos { row: 1, col: 0 }), "inside a wide glyph");
    assert_eq!(g.position_at(7, 2), Some(ChatPos { row: 1, col: 1 }));
    assert_eq!(g.position_at(14, 2), Some(ChatPos { row: 1, col: 3 }), "behind the row's end");
    assert_eq!(g.position_at(5, 3), Some(ChatPos { row: 2, col: 0 }));
    assert_eq!(g.position_at(5, 4), None, "below the last row");
    assert_eq!(g.position_at(4, 2), None, "left of the view");
}
