//! Where a mouse event goes: wheel notches scroll, and the left button selects
//! text in the chat view.

use vstd::prelude::*;
use crate::app::{ChatPos, ChatSelection, Focus, Mode};
use crate::selection::{apply_to_selection, selected_text, ChatGeometry};
use crate::style::Rect;
use crate::ui::layout::{layout_rects, panel_region, LayoutRects, PanelRegion};
use crate::{app, selection, text};

verus! {

/// Rows per notch of the wheel.
pub const WHEEL_STEP: u16 = 3;

/// Which surface takes the wheel.
#[derive(Clone, Copy, Debug, PartialEq, Eq, Structural)]
pub enum WheelSurface {
    LogViewer,
    Help,
    ModelPicker,
    /// The panels, by the position of the cursor.
    Panels,
}

/// What the mouse did.
#[derive(Clone, Copy, Debug, PartialEq, Eq, Structural)]
pub enum MouseKind {
    ScrollUp,
    ScrollDown,
    LeftDown,
    LeftUp,
    LeftDrag,
    Other,
}

/// A mouse event.
#[derive(Clone, Copy, Debug, PartialEq, Eq, Structural)]
pub struct MouseEvent {
    pub kind: MouseKind,
    pub column: u16,
    pub row: u16,
}

/// What a mouse event asks for.
#[derive(Clone, Copy, Debug, PartialEq, Eq, Structural)]
pub enum MouseAction {
    Nothing,
    /// Move the log viewer's cursor by so many lines.
    LogCursorUp(u16),
    LogCursorDown(u16),
    /// Scroll the help by so many lines.
    HelpUp(u16),
    HelpDown(u16),
    /// Move the picker's selection by so many rows.
    PickerUp(u16),
    PickerDown(u16),
    /// Scroll the chat by so many rows.
    ChatUp(u16),
    ChatDown(u16),
    /// Select the neighbouring thread.
    PreviousThread,
    NextThread,
    BeginSelection(ChatPos),
    DragSelection(ChatPos),
    ClearSelection,
    /// End the drag and copy what it selected.
    ReleaseSelection,
}

/// The surface that takes the wheel in a mode. A surface that owns the screen
/// takes it wherever the cursor is.
pub open spec fn surface(mode: Mode) -> WheelSurface {
    match mode {
        Mode::LogViewer { .. } => WheelSurface::LogViewer,
        Mode::HelpViewing { .. } => WheelSurface::Help,
        Mode::ModelPicking { .. } => WheelSurface::ModelPicker,
        _ => WheelSurface::Panels,
    }
}

/// What the routing of a mouse event depends on.
#[derive(Clone, Copy, Debug)]
pub struct MouseFacts<'a> {
    pub mode: &'a Mode,
    pub focus: Focus,
    /// Whether the error popup is open.
    pub error_popup: bool,
    /// Whether the quit confirmation is open.
    pub quit_confirm: bool,
    /// What the input block would take if nothing held it back.
    pub input_height: u16,
    /// The place in the transcript under the cursor, if any.
    pub point: Option<ChatPos>,
}

impl MouseFacts<'_> {
    /// Whether the pointer may select: no popup owns the screen.
    pub open spec fn selectable(self) -> bool {
        self.mode is Normal && !self.error_popup && !self.quit_confirm
    }
}

/// Which panel a cell belongs to.
pub open spec fn region(rects: LayoutRects, column: u16, row: u16) -> PanelRegion {
    if rects.sidebar.holds(column, row) {
        PanelRegion::Sidebar
    } else if rects.chat.holds(column, row) {
        PanelRegion::Chat
    } else {
        PanelRegion::Other
    }
}

/// What a mouse event on the panels asks for.
pub open spec fn panel_action(facts: MouseFacts, event: MouseEvent, rects: LayoutRects) -> MouseAction {
    let at = region(rects, event.column, event.row);
    match event.kind {
        MouseKind::ScrollUp => match at {
            PanelRegion::Chat => MouseAction::ChatUp(WHEEL_STEP),
            PanelRegion::Sidebar => if facts.focus == Focus::Sidebar {
                MouseAction::PreviousThread
            } else {
                MouseAction::Nothing
            },
            PanelRegion::Other => MouseAction::Nothing,
        },
        MouseKind::ScrollDown => match at {
            PanelRegion::Chat => MouseAction::ChatDown(WHEEL_STEP),
            PanelRegion::Sidebar => if facts.focus == Focus::Sidebar {
                MouseAction::NextThread
            } else {
                MouseAction::Nothing
            },
            PanelRegion::Other => MouseAction::Nothing,
        },
        MouseKind::LeftUp => if facts.selectable() {
            MouseAction::ReleaseSelection
        } else {
            MouseAction::Nothing
        },
        MouseKind::LeftDown => if !facts.selectable() {
            MouseAction::Nothing
        } else if at == PanelRegion::Chat && facts.point is Some {
            MouseAction::BeginSelection(facts.point->0)
        } else {
            MouseAction::ClearSelection
        },
        MouseKind::LeftDrag => if facts.selectable() && facts.point is Some {
            MouseAction::DragSelection(facts.point->0)
        } else {
            MouseAction::Nothing
        },
        MouseKind::Other => MouseAction::Nothing,
    }
}

/// What a mouse event asks for, where the panels lie as in `rects`.
pub open spec fn action(facts: MouseFacts, event: MouseEvent, rects: LayoutRects) -> MouseAction {
    match surface(*facts.mode) {
        WheelSurface::LogViewer => match event.kind {
            MouseKind::ScrollUp => MouseAction::LogCursorUp(WHEEL_STEP),
            MouseKind::ScrollDown => MouseAction::LogCursorDown(WHEEL_STEP),
            _ => MouseAction::Nothing,
        },
        WheelSurface::Help => match event.kind {
            MouseKind::ScrollUp => MouseAction::HelpUp(WHEEL_STEP),
            MouseKind::ScrollDown => MouseAction::HelpDown(WHEEL_STEP),
            _ => MouseAction::Nothing,
        },
        WheelSurface::ModelPicker => match event.kind {
            MouseKind::ScrollUp => MouseAction::PickerUp(WHEEL_STEP),
            MouseKind::ScrollDown => MouseAction::PickerDown(WHEEL_STEP),
            _ => MouseAction::Nothing,
        },
        WheelSurface::Panels => panel_action(facts, event, rects),
    }
}

/// The surface that takes the wheel in a mode.
pub fn wheel_surface(mode: &Mode) -> (r: WheelSurface)
    ensures
        r == surface(*mode),
{
    match mode {
        Mode::LogViewer { .. } => WheelSurface::LogViewer,
        Mode::HelpViewing { .. } => WheelSurface::Help,
        Mode::ModelPicking { .. } => WheelSurface::ModelPicker,
        _ => WheelSurface::Panels,
    }
}

/// Routes a mouse event over panels that lie as in `rects`.
pub fn handle_mouse_in(facts: &MouseFacts, event: MouseEvent, rects: &LayoutRects) -> (r: MouseAction)
    ensures
        r == action(*facts, event, *rects),
{
    match wheel_surface(facts.mode) {
        WheelSurface::LogViewer => {
            return match event.kind {
                MouseKind::ScrollUp => MouseAction::LogCursorUp(WHEEL_STEP),
                MouseKind::ScrollDown => MouseAction::LogCursorDown(WHEEL_STEP),
                _ => MouseAction::Nothing,
            };
        },
        WheelSurface::Help => {
            return match event.kind {
                MouseKind::ScrollUp => MouseAction::HelpUp(WHEEL_STEP),
                MouseKind::ScrollDown => MouseAction::HelpDown(WHEEL_STEP),
                _ => MouseAction::Nothing,
            };
        },
        WheelSurface::ModelPicker => {
            return match event.kind {
                MouseKind::ScrollUp => MouseAction::PickerUp(WHEEL_STEP),
                MouseKind::ScrollDown => MouseAction::PickerDown(WHEEL_STEP),
                _ => MouseAction::Nothing,
            };
        },
        WheelSurface::Panels => {},
    }
    let at = panel_region(rects, event.column, event.row);
    let selectable = facts.mode.is_normal() && !facts.error_popup && !facts.quit_confirm;
    let sidebar_focused = match facts.focus {
        Focus::Sidebar => true,
        Focus::Chat => false,
    };
    match event.kind {
        MouseKind::ScrollUp => match at {
            PanelRegion::Chat => MouseAction::ChatUp(WHEEL_STEP),
            PanelRegion::Sidebar => if sidebar_focused {
                MouseAction::PreviousThread
            } else {
                MouseAction::Nothing
            },
            PanelRegion::Other => MouseAction::Nothing,
        },
        MouseKind::ScrollDown => match at {
            PanelRegion::Chat => MouseAction::ChatDown(WHEEL_STEP),
            PanelRegion::Sidebar => if sidebar_focused {
                MouseAction::NextThread
            } else {
                MouseAction::Nothing
            },
            PanelRegion::Other => MouseAction::Nothing,
        },
        MouseKind::LeftUp => if selectable {
            MouseAction::ReleaseSelection
        } else {
            MouseAction::Nothing
        },
        MouseKind::LeftDown => if !selectable {
            MouseAction::Nothing
        } else {
            match (at, facts.point) {
                (PanelRegion::Chat, Some(point)) => MouseAction::BeginSelection(point),
                _ => MouseAction::ClearSelection,
            }
        },
        MouseKind::LeftDrag => match facts.point {
            Some(point) => if selectable {
                MouseAction::DragSelection(point)
            } else {
                MouseAction::Nothing
            },
            None => MouseAction::Nothing,
        },
        MouseKind::Other => MouseAction::Nothing,
    }
}

/// Routes a mouse event on a frame, over the panels as they are painted there.
pub fn handle_mouse(facts: &MouseFacts, event: MouseEvent, area: Rect) -> (r: MouseAction)
    ensures
        exists|rects: LayoutRects|
            rects.lie_on(area, facts.input_height) && rects.disjoint() && #[trigger] action(
                *facts,
                event,
                rects,
            ) == r,
{
    let rects = layout_rects(area, facts.input_height);
    handle_mouse_in(facts, event, &rects)
}

/// Whether an action starts, moves or ends a selection.
pub open spec fn selects(action: MouseAction) -> bool {
    action is BeginSelection || action is DragSelection || action is ClearSelection
        || action is ReleaseSelection
}

/// Under a popup of any sort the pointer selects and copies nothing.
pub proof fn law_popups_swallow_selection(facts: MouseFacts, event: MouseEvent, rects: LayoutRects)
    requires
        !facts.selectable(),
    ensures
        !selects(action(facts, event, rects)),
{
}

/// A surface that owns the screen gets the wheel wherever the cursor is, and
/// nothing else.
pub proof fn law_modal_owns_wheel(
    facts: MouseFacts,
    e1: MouseEvent,
    e2: MouseEvent,
    r1: LayoutRects,
    r2: LayoutRects,
)
    requires
        surface(*facts.mode) != WheelSurface::Panels,
        e1.kind == e2.kind,
    ensures
        action(facts, e1, r1) == action(facts, e2, r2),
        e1.kind != MouseKind::ScrollUp && e1.kind != MouseKind::ScrollDown ==> action(
            facts,
            e1,
            r1,
        ) == MouseAction::Nothing,
{
}

/// Hovering over the chat list does nothing while it lacks the keyboard.
pub proof fn law_no_hover_switching(facts: MouseFacts, event: MouseEvent, rects: LayoutRects)
    requires
        facts.focus == Focus::Chat,
    ensures
        action(facts, event, rects) != MouseAction::PreviousThread,
        action(facts, event, rects) != MouseAction::NextThread,
{
}

/// What the wheel moves.
#[derive(Clone, Copy, Debug, PartialEq, Eq, Structural)]
pub struct WheelState {
    /// Rows that the chat is scrolled up from the bottom.
    pub scroll: u16,
    /// The active chat, and how many there are.
    pub active: usize,
    pub chats: usize,
    /// The log viewer's cursor, and how many lines there are.
    pub log_cursor: usize,
    pub log_lines: usize,
    /// The help's first line, and the last one that it may be.
    pub help_scroll: usize,
    pub help_most: usize,
    /// The picker's selection, and how many models there are.
    pub picked: usize,
    pub models: usize,
}

/// `at`, moved down by `n`, no further than the last of `count`.
pub open spec fn moved_down(at: usize, n: int, count: usize) -> usize {
    if count == 0 {
        at
    } else if at + n >= count {
        (count - 1) as usize
    } else {
        (at + n) as usize
    }
}

/// `at`, moved up by `n`, no further than the first.
pub open spec fn moved_up(at: usize, n: int) -> usize {
    if at < n {
        0
    } else {
        (at - n) as usize
    }
}

/// What the wheel moves, after an action. Every end clamps; nothing wraps
/// around.
pub open spec fn wheeled(state: WheelState, action: MouseAction) -> WheelState {
    match action {
        MouseAction::ChatUp(n) => WheelState {
            scroll: if state.scroll + n > u16::MAX {
                u16::MAX
            } else {
                (state.scroll + n) as u16
            },
            ..state
        },
        MouseAction::ChatDown(n) => WheelState {
            scroll: if state.scroll < n {
                0
            } else {
                (state.scroll - n) as u16
            },
            ..state
        },
        MouseAction::PreviousThread => WheelState { active: moved_up(state.active, 1), ..state },
        MouseAction::NextThread => WheelState {
            active: moved_down(state.active, 1, state.chats),
            ..state
        },
        MouseAction::LogCursorUp(n) => WheelState {
            log_cursor: moved_up(state.log_cursor, n as int),
            ..state
        },
        MouseAction::LogCursorDown(n) => WheelState {
            log_cursor: moved_down(state.log_cursor, n as int, state.log_lines),
            ..state
        },
        MouseAction::HelpUp(n) => WheelState {
            help_scroll: moved_up(state.help_scroll, n as int),
            ..state
        },
        MouseAction::HelpDown(n) => WheelState {
            help_scroll: if state.help_scroll + n > state.help_most {
                state.help_most
            } else {
                (state.help_scroll + n) as usize
            },
            ..state
        },
        MouseAction::PickerUp(n) => WheelState {
            picked: moved_up(state.picked, n as int),
            ..state
        },
        MouseAction::PickerDown(n) => WheelState {
            picked: moved_down(state.picked, n as int, state.models),
            ..state
        },
        _ => state,
    }
}

/// Moves `at` down by `n`, no further than the last of `count`.
pub fn move_down(at: usize, n: u16, count: usize) -> (r: usize)
    ensures
        r == moved_down(at, n as int, count),
{
    if count == 0 {
        at
    } else if at >= count || n as usize >= count - at {
        count - 1
    } else {
        at + n as usize
    }
}

/// Applies an action of the wheel.
pub fn apply_wheel(state: &mut WheelState, action: MouseAction)
    ensures
        *final(state) == wheeled(*old(state), action),
{
    match action {
        MouseAction::ChatUp(n) => {
            state.scroll = state.scroll.saturating_add(n);
        },
        MouseAction::ChatDown(n) => {
            state.scroll = state.scroll.saturating_sub(n);
        },
        MouseAction::PreviousThread => {
            state.active = state.active.saturating_sub(1);
        },
        MouseAction::NextThread => {
            state.active = move_down(state.active, 1, state.chats);
        },
        MouseAction::LogCursorUp(n) => {
            state.log_cursor = state.log_cursor.saturating_sub(n as usize);
        },
        MouseAction::LogCursorDown(n) => {
            state.log_cursor = move_down(state.log_cursor, n, state.log_lines);
        },
        MouseAction::HelpUp(n) => {
            state.help_scroll = state.help_scroll.saturating_sub(n as usize);
        },
        MouseAction::HelpDown(n) => {
            let most: usize = state.help_most;
            let at: usize = state.help_scroll;
            state.help_scroll = if at >= most || n as usize > most - at {
                most
            } else {
                at + n as usize
            };
        },
        MouseAction::PickerUp(n) => {
            state.picked = state.picked.saturating_sub(n as usize);
        },
        MouseAction::PickerDown(n) => {
            state.picked = move_down(state.picked, n, state.models);
        },
        _ => {},
    }
}

/// What the pointer works on.
#[derive(Clone, Copy, Debug, PartialEq, Eq)]
pub struct PointerState {
    pub wheel: WheelState,
    pub selection: Option<ChatSelection>,
}

/// The facts for an event over the rows of `geometry`: with the place under the
/// cursor.
pub open spec fn facts_at<'a>(
    facts: MouseFacts<'a>,
    geometry: Option<&ChatGeometry>,
    event: MouseEvent,
) -> MouseFacts<'a> {
    MouseFacts {
        point: match geometry {
            Some(g) => g.position(event.column, event.row),
            None => None,
        },
        ..facts
    }
}

/// What an action copies: on release the selected text, where the rows are known.
pub open spec fn copied(
    selected: Option<ChatSelection>,
    action: MouseAction,
    geometry: Option<&ChatGeometry>,
) -> Option<Seq<char>> {
    match (selected, geometry) {
        (Some(sel), Some(g)) if selection::copies(selected, action) => Some(
            selection::text_of(app::meta_views(g.rows@), sel),
        ),
        _ => None,
    }
}

/// Handles a mouse event on a frame: moves what the wheel moves, changes the
/// selection, and returns the text to be copied, if any. `geometry` tells where
/// the rows of the transcript lie.
pub fn handle_mouse_with_copy(
    state: &mut PointerState,
    facts: &MouseFacts,
    geometry: Option<&ChatGeometry>,
    event: MouseEvent,
    area: Rect,
) -> (r: Option<String>)
    ensures
        exists|rects: LayoutRects|
            rects.lie_on(area, facts.input_height) && rects.disjoint() && {
                let asked = #[trigger] action(facts_at(*facts, geometry, event), event, rects);
                &&& final(state).wheel == wheeled(old(state).wheel, asked)
                &&& final(state).selection == selection::after(old(state).selection, asked)
                &&& text::optional(r) == copied(old(state).selection, asked, geometry)
            },
{
    let point = match geometry {
        Some(g) => g.position_at(event.column, event.row),
        None => None,
    };
    let placed = MouseFacts { point, ..*facts };
    let rects = layout_rects(area, facts.input_height);
    let asked = handle_mouse_in(&placed, event, &rects);
    let held = state.selection;
    apply_wheel(&mut state.wheel, asked);
    let copy = apply_to_selection(&mut state.selection, asked);
    let r = match (held, geometry) {
        (Some(sel), Some(g)) => if copy {
            Some(selected_text(&g.rows, &sel))
        } else {
            None
        },
        _ => None,
    };
    assert(action(facts_at(*facts, geometry, event), event, rects) == asked);
    r
}

/// What the wheel scrolled up it scrolls down again, where nothing clamped.
pub proof fn law_wheel_down_undoes_up(state: WheelState, n: u16)
    requires
        state.scroll + n <= u16::MAX,
    ensures
        wheeled(wheeled(state, MouseAction::ChatUp(n)), MouseAction::ChatDown(n)) == state,
{
}

/// Over the panels the wheel works where the cursor is: three rows of the chat
/// per notch over the chat; over the sidebar one thread, and only where the
/// sidebar has the focus; elsewhere nothing.
pub proof fn law_wheel_goes_by_position(facts: MouseFacts, event: MouseEvent, rects: LayoutRects)
    requires
        facts.mode is Normal,
    ensures
        ({
            let up = action(facts, (MouseEvent { kind: MouseKind::ScrollUp, ..event }), rects);
            let down = action(facts, (MouseEvent { kind: MouseKind::ScrollDown, ..event }), rects);
            let over_sidebar = rects.sidebar.holds(event.column, event.row);
            let over_chat = !over_sidebar && rects.chat.holds(event.column, event.row);
            &&& over_chat ==> up == MouseAction::ChatUp(3) && down == MouseAction::ChatDown(3)
            &&& over_sidebar && facts.focus == Focus::Sidebar ==> up
                == MouseAction::PreviousThread && down == MouseAction::NextThread
            &&& over_sidebar && facts.focus == Focus::Chat ==> up == MouseAction::Nothing && down
                == MouseAction::Nothing
            &&& !over_sidebar && !over_chat ==> up == MouseAction::Nothing && down
                == MouseAction::Nothing
        }),
{
}

/// The wheel moves the log, the help or the model list by three where one of
/// them is open, up with the wheel and down with it.
pub proof fn law_wheel_in_modals(facts: MouseFacts, event: MouseEvent, rects: LayoutRects)
    ensures
        facts.mode is LogViewer && event.kind == MouseKind::ScrollUp ==> action(
            facts,
            event,
            rects,
        ) == MouseAction::LogCursorUp(3),
        facts.mode is LogViewer && event.kind == MouseKind::ScrollDown ==> action(
            facts,
            event,
            rects,
        ) == MouseAction::LogCursorDown(3),
        facts.mode is HelpViewing && event.kind == MouseKind::ScrollUp ==> action(
            facts,
            event,
            rects,
        ) == MouseAction::HelpUp(3),
        facts.mode is HelpViewing && event.kind == MouseKind::ScrollDown ==> action(
            facts,
            event,
            rects,
        ) == MouseAction::HelpDown(3),
        facts.mode is ModelPicking && event.kind == MouseKind::ScrollUp ==> action(
            facts,
            event,
            rects,
        ) == MouseAction::PickerUp(3),
        facts.mode is ModelPicking && event.kind == MouseKind::ScrollDown ==> action(
            facts,
            event,
            rects,
        ) == MouseAction::PickerDown(3),
{
}

/// With no popup open, a press on the transcript begins a selection there and a
/// press elsewhere clears it; a drag over the transcript goes on with it, and the
/// release ends it.
pub proof fn law_buttons_select(facts: MouseFacts, event: MouseEvent, rects: LayoutRects)
    requires
        facts.mode is Normal,
        !facts.error_popup,
        !facts.quit_confirm,
    ensures
        ({
            let did = action(facts, event, rects);
            let in_chat = !rects.sidebar.holds(event.column, event.row) && rects.chat.holds(
                event.column,
                event.row,
            );
            &&& event.kind == MouseKind::LeftDown ==> (did == match facts.point {
                Some(p) if in_chat => MouseAction::BeginSelection(p),
                _ => MouseAction::ClearSelection,
            })
            &&& event.kind == MouseKind::LeftDrag ==> (did == match facts.point {
                Some(p) => MouseAction::DragSelection(p),
                None => MouseAction::Nothing,
            })
            &&& event.kind == MouseKind::LeftUp ==> did == MouseAction::ReleaseSelection
            &&& event.kind == MouseKind::Other ==> did == MouseAction::Nothing
        }),
{
}

/// A step in a list goes as far as it is told, and no further than the ends.
pub proof fn law_steps_stop_at_the_ends(at: usize, n: int, count: usize)
    requires
        at < count,
        0 <= n,
    ensures
        moved_down(at, n, count) < count,
        at + n < count ==> moved_down(at, n, count) == at + n,
        at + n >= count ==> moved_down(at, n, count) == count - 1,
        n <= at ==> moved_up(at, n) == at - n,
        n > at ==> moved_up(at, n) == 0,
{
}

/// What the wheel does moves its own number alone: the chat's scroll, the active
/// thread, the log's cursor, the help's scroll or the picked model.
pub proof fn law_wheel_moves_one_thing(state: WheelState, n: u16)
    ensures
        ({
            let up = wheeled(state, MouseAction::ChatUp(n));
            let down = wheeled(state, MouseAction::ChatDown(n));
            &&& up == (WheelState { scroll: up.scroll, ..state })
            &&& down == (WheelState { scroll: down.scroll, ..state })
            &&& state.scroll + n <= u16::MAX ==> up.scroll == state.scroll + n
            &&& n <= state.scroll ==> down.scroll == state.scroll - n
            &&& n > state.scroll ==> down.scroll == 0
        }),
        ({
            let next = wheeled(state, MouseAction::NextThread);
            let previous = wheeled(state, MouseAction::PreviousThread);
            &&& next == (WheelState { active: next.active, ..state })
            &&& previous == (WheelState { active: previous.active, ..state })
            &&& state.active + 1 < state.chats ==> next.active == state.active + 1
            &&& state.active > 0 ==> previous.active == state.active - 1
            &&& state.active == 0 ==> previous.active == 0
        }),
        wheeled(state, MouseAction::LogCursorUp(n)) == (WheelState {
            log_cursor: moved_up(state.log_cursor, n as int),
            ..state
        }),
        wheeled(state, MouseAction::LogCursorDown(n)) == (WheelState {
            log_cursor: moved_down(state.log_cursor, n as int, state.log_lines),
            ..state
        }),
        wheeled(state, MouseAction::PickerUp(n)) == (WheelState {
            picked: moved_up(state.picked, n as int),
            ..state
        }),
        wheeled(state, MouseAction::PickerDown(n)) == (WheelState {
            picked: moved_down(state.picked, n as int, state.models),
            ..state
        }),
        ({
            let up = wheeled(state, MouseAction::HelpUp(n));
            let down = wheeled(state, MouseAction::HelpDown(n));
            &&& up == (WheelState { help_scroll: up.help_scroll, ..state })
            &&& down == (WheelState { help_scroll: down.help_scroll, ..state })
            &&& n <= state.help_scroll ==> up.help_scroll == state.help_scroll - n
            &&& state.help_scroll + n <= state.help_most ==> down.help_scroll
                == state.help_scroll + n
            &&& state.help_scroll + n > state.help_most ==> down.help_scroll == state.help_most
        }),
{
}

/// A selection is copied where a drag that went anywhere is released, with the
/// text that it covers.
pub proof fn law_release_copies_the_selection(
    selected: Option<ChatSelection>,
    geometry: Option<&ChatGeometry>,
    did: MouseAction,
)
    ensures
        copied(selected, did, geometry) is Some <==> (did is ReleaseSelection && geometry is Some
            && (selected matches Some(s) && s.dragging && s.anchor != s.head)),
        copied(selected, did, geometry) matches Some(t) ==> t == selection::text_of(
            app::meta_views(geometry->0.rows@),
            selected->0,
        ),
{
}

/// The place under the pointer is the one that the painted transcript has there.
pub proof fn law_pointer_reads_the_transcript(
    facts: MouseFacts,
    geometry: Option<&ChatGeometry>,
    event: MouseEvent,
)
    ensures
        geometry is None ==> facts_at(facts, geometry, event).point is None,
        geometry matches Some(g) ==> facts_at(facts, geometry, event).point == g.position(
            event.column,
            event.row,
        ),
        facts_at(facts, geometry, event).mode == facts.mode,
        facts_at(facts, geometry, event).focus == facts.focus,
{
}

} // verus!
