//! Geometry of the panels, and the order of the layers.

use vstd::prelude::*;
use crate::app::Mode;
use crate::style::Rect;

verus! {

/// How large a part of a split wants to be.
#[derive(Clone, Copy, Debug, PartialEq, Eq, Structural)]
pub enum Constraint {
    /// At least this many cells, and what is left over.
    Min(u16),
    /// This many cells.
    Length(u16),
}

/// Which way an area is split.
#[derive(Clone, Copy, Debug, PartialEq, Eq, Structural)]
pub enum Direction {
    Horizontal,
    Vertical,
}

/// Whether `parts` lie in `area` along `direction`, each part behind the one
/// before it, and each as wide as the area across.
pub open spec fn laid_out(direction: Direction, area: Rect, parts: Seq<Rect>) -> bool {
    match direction {
        Direction::Vertical => {
            &&& forall|i: int|
                0 <= i < parts.len() ==> (#[trigger] parts[i]).x == area.x && parts[i].width
                    == area.width && area.y <= parts[i].y && parts[i].y + parts[i].height
                    <= area.bottom_edge()
            &&& forall|i: int, j: int|
                0 <= i < j < parts.len() ==> (#[trigger] parts[i]).y + parts[i].height
                    <= (#[trigger] parts[j]).y
        },
        Direction::Horizontal => {
            &&& forall|i: int|
                0 <= i < parts.len() ==> (#[trigger] parts[i]).y == area.y && parts[i].height
                    == area.height && area.x <= parts[i].x && parts[i].x + parts[i].width
                    <= area.right_edge()
            &&& forall|i: int, j: int|
                0 <= i < j < parts.len() ==> (#[trigger] parts[i]).x + parts[i].width
                    <= (#[trigger] parts[j]).x
        },
    }
}

/// The cells that a constraint asks for.
pub open spec fn wish(c: Constraint) -> int {
    match c {
        Constraint::Min(n) => n as int,
        Constraint::Length(n) => n as int,
    }
}

/// The cells that all constraints ask for together.
pub open spec fn wishes(constraints: Seq<Constraint>) -> int
    decreases constraints.len(),
{
    if constraints.len() == 0 {
        0
    } else {
        wishes(constraints.drop_last()) + wish(constraints.last())
    }
}

/// Whether the constraint at `k` is a minimum, and every other one a length.
pub open spec fn only_min(constraints: Seq<Constraint>, k: int) -> bool {
    &&& 0 <= k < constraints.len()
    &&& constraints[k] is Min
    &&& forall|i: int|
        0 <= i < constraints.len() && i != k ==> (#[trigger] constraints[i]) is Length
}

/// The cells of an area along a direction.
pub open spec fn extent(direction: Direction, area: Rect) -> int {
    match direction {
        Direction::Horizontal => area.right_edge() - area.x,
        Direction::Vertical => area.bottom_edge() - area.y,
    }
}

/// The cells of a part along a direction.
pub open spec fn cells(direction: Direction, part: Rect) -> int {
    match direction {
        Direction::Horizontal => part.width as int,
        Direction::Vertical => part.height as int,
    }
}

/// The cells of all parts along a direction.
pub open spec fn taken(direction: Direction, parts: Seq<Rect>) -> int
    decreases parts.len(),
{
    if parts.len() == 0 {
        0
    } else {
        taken(direction, parts.drop_last()) + cells(direction, parts.last())
    }
}

/// Whether every part but the one at `k` gets the cells that it asks for, and
/// that one what is left.
pub open spec fn granted(
    direction: Direction,
    area: Rect,
    constraints: Seq<Constraint>,
    parts: Seq<Rect>,
    k: int,
) -> bool {
    forall|i: int|
        0 <= i < constraints.len() ==> cells(direction, #[trigger] parts[i]) == if i == k {
            extent(direction, area) - (wishes(constraints) - wish(constraints[k]))
        } else {
            wish(constraints[i])
        }
}

/// Whether the part at `k` gets the cells that it asks for, as far as the area
/// has them, and the others share what is left, none with more than it asks for.
pub open spec fn pressed(
    direction: Direction,
    area: Rect,
    constraints: Seq<Constraint>,
    parts: Seq<Rect>,
    k: int,
) -> bool {
    &&& cells(direction, parts[k]) == if wish(constraints[k]) < extent(direction, area) {
        wish(constraints[k])
    } else {
        extent(direction, area)
    }
    &&& taken(direction, parts) == extent(direction, area)
    &&& forall|i: int|
        0 <= i < constraints.len() && i != k ==> cells(direction, #[trigger] parts[i]) <= wish(
            constraints[i],
        )
}

/// `Layout::split` of `ratatui`, without margin or spacing: one part per
/// constraint. The solver keeps every edge inside the area, and an edge between
/// two parts belongs to both. Where the area has room for all wishes, lengths
/// are kept, and a sole minimum grows to take what is left. Where it has not, a
/// minimum is served before the lengths, and the lengths take all the rest.
/// Which of several lengths gives way there is open: they are all equally
/// strong, and nothing fixes the order in which the solver visits them.
#[verifier::external_body]
pub(crate) fn split(direction: Direction, area: Rect, constraints: &Vec<Constraint>) -> (r: Vec<
    Rect,
>)
    ensures
        r@.len() == constraints@.len(),
        laid_out(direction, area, r@),
        forall|k: int| #[trigger]
            only_min(constraints@, k) && wishes(constraints@) <= extent(direction, area)
                ==> granted(direction, area, constraints@, r@, k),
        forall|k: int| #[trigger]
            only_min(constraints@, k) && wish(constraints@[k]) <= i16::MAX && wishes(constraints@)
                > extent(direction, area) ==> pressed(direction, area, constraints@, r@, k),
{
    let Rect { x, y, width, height } = area;
    let whole = ratatui::layout::Rect { x, y, width, height };
    let towards = match direction {
        Direction::Horizontal => ratatui::layout::Direction::Horizontal,
        Direction::Vertical => ratatui::layout::Direction::Vertical,
    };
    let wishes = constraints.iter().map(|c| match c {
        Constraint::Min(n) => ratatui::layout::Constraint::Min(*n),
        Constraint::Length(n) => ratatui::layout::Constraint::Length(*n),
    });
    let parts = ratatui::layout::Layout::new(towards, wishes).split(whole);
    parts.iter().map(|p| Rect { x: p.x, y: p.y, width: p.width, height: p.height }).collect()
}

/// `a - b`, at least zero.
pub open spec fn less(a: int, b: int) -> int {
    if a > b {
        a - b
    } else {
        0
    }
}

/// The area inside a bordered block: one cell less on each side, and `padding`
/// columns less on the left and on the right.
pub open spec fn inner_area(area: Rect, padding: u16) -> Rect {
    let x = if area.x + 1 > u16::MAX {
        area.right_edge()
    } else if area.x + 1 < area.right_edge() {
        area.x + 1
    } else {
        area.right_edge()
    };
    let y = if area.y + 1 > u16::MAX {
        area.bottom_edge()
    } else if area.y + 1 < area.bottom_edge() {
        area.y + 1
    } else {
        area.bottom_edge()
    };
    Rect {
        x: (if x + padding > u16::MAX {
            u16::MAX as int
        } else {
            x + padding
        }) as u16,
        y: y as u16,
        width: less(less(area.width as int, 2), 2 * padding) as u16,
        height: less(area.height as int, 2) as u16,
    }
}

/// `Block::inner` of `ratatui`, for a block with all four borders and
/// horizontal padding.
#[verifier::external_body]
pub(crate) fn block_inner(area: Rect, padding: u16) -> (r: Rect)
    requires
        padding <= 1,
    ensures
        r == inner_area(area, padding),
{
    let Rect { x, y, width, height } = area;
    let inner = ratatui::widgets::Block::default().borders(ratatui::widgets::Borders::ALL)
        .padding(ratatui::widgets::Padding::horizontal(padding))
        .inner(ratatui::layout::Rect { x, y, width, height });
    Rect { x: inner.x, y: inner.y, width: inner.width, height: inner.height }
}

/// Panel rectangles of one frame. The router of mouse events uses the same ones
/// as the painter, so the two cannot disagree.
#[derive(Clone, Copy, Debug, PartialEq, Eq)]
pub struct LayoutRects {
    /// The chat list, left.
    pub sidebar: Rect,
    /// The chat view, right of it.
    pub chat: Rect,
    /// The rows of the frame: the main area, the spinner line, the input block
    /// and the line of hotkey hints.
    pub root: [Rect; 4],
}

/// Columns of the chat list.
pub const SIDEBAR_WIDTH: u16 = 26;

/// Least columns of the chat view.
pub const CHAT_MIN_WIDTH: u16 = 20;

/// The height of the input block on a frame of `height` rows: at least one row,
/// and never so much that spinner, hints and a sliver of chat would go.
pub open spec fn block_height(height: u16, input_height: u16) -> u16 {
    let most = if height > 5 {
        (height - 4) as u16
    } else {
        1
    };
    if input_height < most {
        input_height
    } else {
        most
    }
}

impl LayoutRects {
    /// No cell lies in both panels, nor in two of the rows, and the panels lie in
    /// the main area.
    pub open spec fn disjoint(self) -> bool {
        &&& forall|c: u16, r: u16| #[trigger]
            self.sidebar.holds(c, r) ==> self.root@[0].holds(c, r)
        &&& forall|c: u16, r: u16| #[trigger]
            self.chat.holds(c, r) ==> self.root@[0].holds(c, r)
        &&& forall|c: u16, r: u16|
            !(#[trigger] self.sidebar.holds(c, r) && #[trigger] self.chat.holds(c, r))
        &&& forall|i: int, j: int, c: u16, r: u16|
            0 <= i < j < 4 ==> !(#[trigger] self.root@[i].holds(c, r)
                && #[trigger] self.root@[j].holds(c, r))
    }

    /// The chat view's text column in the input block: without the column at
    /// the right margin.
    pub fn chat_column(&self) -> (r: Rect)
        ensures
            r == (Rect {
                x: self.chat.x,
                y: self.root@[2].y,
                width: less(self.chat.width as int, 1) as u16,
                height: self.root@[2].height,
            }),
    {
        Rect {
            x: self.chat.x,
            y: self.root[2].y,
            width: self.chat.width.saturating_sub(1),
            height: self.root[2].height,
        }
    }
}

/// The rows of a frame that has room for them: spinner line, input block of
/// `block` rows and hints at the bottom, the main area above.
pub open spec fn stacked(area: Rect, block: u16) -> Seq<Rect> {
    let main = area.height - 2 - block;
    seq![
        Rect { height: main as u16, ..area },
        Rect { y: (area.y + main) as u16, height: 1, ..area },
        Rect { y: (area.y + main + 1) as u16, height: block, ..area },
        Rect { y: (area.y + main + 1 + block) as u16, height: 1, ..area },
    ]
}

/// The panels of a main area. Where the columns are scarce, the chat view keeps
/// its least ones before the chat list gets any.
pub open spec fn side_by_side(main: Rect) -> Seq<Rect> {
    let sidebar = if main.width >= SIDEBAR_WIDTH + CHAT_MIN_WIDTH {
        SIDEBAR_WIDTH as int
    } else {
        less(main.width as int, CHAT_MIN_WIDTH as int)
    };
    seq![
        Rect { width: sidebar as u16, ..main },
        Rect { x: (main.x + sidebar) as u16, width: (main.width - sidebar) as u16, ..main },
    ]
}

impl LayoutRects {
    /// Whether these are panels of a frame on `area`: rows from top to bottom, and
    /// in the first of them the chat list left of the chat view. From three rows
    /// on this fixes every one of them. On fewer the main area has no row, and
    /// which of the other rows shows is open.
    pub open spec fn lie_on(self, area: Rect, input_height: u16) -> bool {
        let block = block_height(area.height, input_height);
        &&& self.root@.len() == 4
        &&& laid_out(Direction::Vertical, area, self.root@)
        &&& laid_out(Direction::Horizontal, self.root@[0], seq![self.sidebar, self.chat])
        &&& area.fits() ==> seq![self.sidebar, self.chat] == side_by_side(self.root@[0])
        &&& area.fits() && area.height >= 2 + block ==> self.root@ == stacked(area, block)
        &&& area.fits() && area.height < 2 + block ==> {
            &&& self.root@[0].height == 0
            &&& self.root@[1].height <= 1
            &&& self.root@[2].height <= block
            &&& self.root@[3].height <= 1
            &&& self.root@[1].height + self.root@[2].height + self.root@[3].height == area.height
        }
    }
}

/// Splits a frame into its panels; `input_height` is what the input block would
/// take if nothing held it back.
pub fn layout_rects(area: Rect, input_height: u16) -> (r: LayoutRects)
    ensures
        r.lie_on(area, input_height),
        r.disjoint(),
{
    let mut most: u16 = area.height.saturating_sub(4);
    if most < 1 {
        most = 1;
    }
    let mut height: u16 = input_height;
    if height > most {
        height = most;
    }
    let mut rows: Vec<Constraint> = Vec::new();
    rows.push(Constraint::Min(0));
    rows.push(Constraint::Length(1));
    rows.push(Constraint::Length(height));
    rows.push(Constraint::Length(1));
    assert(rows@ =~= seq![
        Constraint::Min(0),
        Constraint::Length(1),
        Constraint::Length(block_height(area.height, input_height)),
        Constraint::Length(1),
    ]);
    let root = split(Direction::Vertical, area, &rows);
    let mut columns: Vec<Constraint> = Vec::new();
    columns.push(Constraint::Length(SIDEBAR_WIDTH));
    columns.push(Constraint::Min(CHAT_MIN_WIDTH));
    assert(columns@ =~= seq![
        Constraint::Length(SIDEBAR_WIDTH),
        Constraint::Min(CHAT_MIN_WIDTH),
    ]);
    let main = split(Direction::Horizontal, root[0], &columns);
    let r = LayoutRects {
        sidebar: main[0],
        chat: main[1],
        root: [root[0], root[1], root[2], root[3]],
    };
    assert(r.root@ =~= root@);
    assert(seq![r.sidebar, r.chat] =~= main@);
    proof {
        let block = block_height(area.height, input_height);
        reveal_with_fuel(wishes, 5);
        reveal_with_fuel(taken, 5);
        assert(rows@.drop_last().drop_last().drop_last().drop_last() =~= Seq::empty());
        assert(wishes(rows@) == 2 + block);
        assert(only_min(rows@, 0));
        assert(wishes(columns@) == SIDEBAR_WIDTH + CHAT_MIN_WIDTH);
        assert(only_min(columns@, 1));
        assert(root@[0].width == area.width && root@[0].x == area.x);
        if area.fits() {
            if area.height >= 2 + block {
                assert(r.root@ =~= stacked(area, block));
            } else {
                assert(pressed(Direction::Vertical, area, rows@, root@, 0));
                assert(taken(Direction::Vertical, root@) == area.height);
            }
            if area.width < SIDEBAR_WIDTH + CHAT_MIN_WIDTH {
                assert(pressed(Direction::Horizontal, root@[0], columns@, main@, 1));
                assert(taken(Direction::Horizontal, main@) == area.width);
            }
            assert(seq![r.sidebar, r.chat] =~= side_by_side(r.root@[0]));
        }
    }
    r
}

/// The spinner line and the hints keep their rows, the input block at least one,
/// and from six rows on the chat keeps two, however long the draft is.
pub proof fn law_rows_survive(rects: LayoutRects, area: Rect, input_height: u16)
    requires
        rects.lie_on(area, input_height),
        area.fits(),
        area.height >= 3,
        input_height >= 1,
    ensures
        rects.root@[1].height == 1,
        rects.root@[2].height >= 1,
        rects.root@[3].height == 1,
        area.height >= 6 ==> rects.root@[0].height >= 2,
        rects.root@[0].height + rects.root@[1].height + rects.root@[2].height
            + rects.root@[3].height == area.height,
{
}

/// The chat view keeps its least columns as long as the frame has them, and the
/// two panels take the whole width between them.
pub proof fn law_chat_served_first(rects: LayoutRects, area: Rect, input_height: u16)
    requires
        rects.lie_on(area, input_height),
        area.fits(),
    ensures
        rects.chat.width >= CHAT_MIN_WIDTH || rects.sidebar.width == 0,
        rects.sidebar.width <= SIDEBAR_WIDTH,
        rects.sidebar.width + rects.chat.width == area.width,
{
    let main = rects.root@[0];
    let panels = seq![rects.sidebar, rects.chat];
    assert(panels[0] == side_by_side(main)[0]);
    assert(panels[1] == side_by_side(main)[1]);
    assert(main.width == area.width);
}

/// Which panel a cell belongs to.
#[derive(Clone, Copy, Debug, PartialEq, Eq, Structural)]
pub enum PanelRegion {
    Sidebar,
    Chat,
    /// Anywhere else.
    Other,
}

/// Which panel the cell at `column`, `row` belongs to.
pub fn panel_region(rects: &LayoutRects, column: u16, row: u16) -> (r: PanelRegion)
    ensures
        r == (if rects.sidebar.holds(column, row) {
            PanelRegion::Sidebar
        } else if rects.chat.holds(column, row) {
            PanelRegion::Chat
        } else {
            PanelRegion::Other
        }),
        rects.disjoint() ==> (r == PanelRegion::Chat <==> rects.chat.holds(column, row)),
{
    if rects.sidebar.contains(column, row) {
        PanelRegion::Sidebar
    } else if rects.chat.contains(column, row) {
        PanelRegion::Chat
    } else {
        PanelRegion::Other
    }
}

/// One surface of a frame.
#[derive(Clone, Copy, Debug, PartialEq, Eq, Structural)]
pub enum Layer {
    Sidebar,
    Chat,
    SpinnerLine,
    RenameLine,
    Input,
    Status,
    ErrorPopup,
    DeletePopup,
    StopResetPopup,
    SearchPopup,
    SearchAllPopup,
    LogViewer,
    ModelPicker,
    HelpModal,
    QuitConfirm,
}

/// The editor's surface: the rename line while renaming, else the input block.
pub open spec fn editor_layer(mode: Mode) -> Layer {
    if mode is Renaming {
        Layer::RenameLine
    } else {
        Layer::Input
    }
}

/// The surface that a mode puts over the panels.
pub open spec fn mode_layers(mode: Mode) -> Seq<Layer> {
    match mode {
        Mode::Normal => seq![],
        Mode::Renaming { .. } => seq![],
        Mode::ConfirmDelete => seq![Layer::DeletePopup],
        Mode::ConfirmStopReset { .. } => seq![Layer::StopResetPopup],
        Mode::Searching { .. } => seq![Layer::SearchPopup],
        Mode::SearchingAll { .. } => seq![Layer::SearchAllPopup],
        Mode::LogViewer { .. } => seq![Layer::LogViewer],
        Mode::ModelPicking { .. } => seq![Layer::ModelPicker],
        Mode::HelpViewing { .. } => seq![Layer::HelpModal],
    }
}

/// The surfaces of a frame, bottom to top.
pub open spec fn frame_layers(mode: Mode, error_popup: bool, quit_confirm: bool) -> Seq<Layer> {
    seq![Layer::Sidebar, Layer::Chat, Layer::SpinnerLine, editor_layer(mode), Layer::Status] + (
    if error_popup {
        seq![Layer::ErrorPopup]
    } else {
        seq![]
    }) + mode_layers(mode) + (if quit_confirm {
        seq![Layer::QuitConfirm]
    } else {
        seq![]
    })
}

/// Lists the surfaces of a frame, bottom to top.
pub fn draw(mode: &Mode, error_popup: bool, quit_confirm: bool) -> (r: Vec<Layer>)
    ensures
        r@ == frame_layers(*mode, error_popup, quit_confirm),
{
    let mut layers: Vec<Layer> = Vec::new();
    layers.push(Layer::Sidebar);
    layers.push(Layer::Chat);
    layers.push(Layer::SpinnerLine);
    layers.push(
        match mode {
            Mode::Renaming { .. } => Layer::RenameLine,
            _ => Layer::Input,
        },
    );
    layers.push(Layer::Status);
    if error_popup {
        layers.push(Layer::ErrorPopup);
    }
    match mode {
        Mode::Normal => {},
        Mode::Renaming { .. } => {},
        Mode::ConfirmDelete => {
            layers.push(Layer::DeletePopup);
        },
        Mode::ConfirmStopReset { .. } => {
            layers.push(Layer::StopResetPopup);
        },
        Mode::Searching { .. } => {
            layers.push(Layer::SearchPopup);
        },
        Mode::SearchingAll { .. } => {
            layers.push(Layer::SearchAllPopup);
        },
        Mode::LogViewer { .. } => {
            layers.push(Layer::LogViewer);
        },
        Mode::ModelPicking { .. } => {
            layers.push(Layer::ModelPicker);
        },
        Mode::HelpViewing { .. } => {
            layers.push(Layer::HelpModal);
        },
    }
    if quit_confirm {
        layers.push(Layer::QuitConfirm);
    }
    layers
}

/// The quit confirmation lies on top of every other surface, and opening it
/// leaves the surfaces below as they are.
pub proof fn law_quit_confirm_topmost(mode: Mode, error_popup: bool)
    ensures
        frame_layers(mode, error_popup, true) == frame_layers(mode, error_popup, false).push(
            Layer::QuitConfirm,
        ),
{
    assert(frame_layers(mode, error_popup, true) =~= frame_layers(mode, error_popup, false).push(
        Layer::QuitConfirm,
    ));
}

/// Every frame holds the five panels, whatever lies over them.
pub proof fn law_panels_always_painted(mode: Mode, error_popup: bool, quit_confirm: bool)
    ensures
        frame_layers(mode, error_popup, quit_confirm).len() >= 5,
        frame_layers(mode, error_popup, quit_confirm).take(5) == seq![
            Layer::Sidebar,
            Layer::Chat,
            Layer::SpinnerLine,
            editor_layer(mode),
            Layer::Status,
        ],
{
    assert(frame_layers(mode, error_popup, quit_confirm).take(5) =~= seq![
        Layer::Sidebar,
        Layer::Chat,
        Layer::SpinnerLine,
        editor_layer(mode),
        Layer::Status,
    ]);
}

/// A roomy frame is cut without gaps: from top to bottom the main area, one row
/// for the spinner, the input block and one row of hints; in the main area the
/// sidebar left with twenty-six columns, and the chat right of it with the rest.
pub proof fn law_layout_fills_the_frame(rects: LayoutRects, area: Rect, input_height: u16)
    requires
        rects.lie_on(area, input_height),
        area.fits(),
        area.height >= 6,
        area.width >= 46,
        1 <= input_height <= area.height - 4,
    ensures
        rects.root@[0].y == area.y,
        rects.root@[1].y == rects.root@[0].y + rects.root@[0].height,
        rects.root@[2].y == rects.root@[1].y + 1,
        rects.root@[3].y == rects.root@[2].y + rects.root@[2].height,
        rects.root@[3].y + 1 == area.y + area.height,
        rects.root@[2].height == input_height,
        forall|i: int| 0 <= i < 4 ==> (#[trigger] rects.root@[i]).x == area.x && rects.root@[i].width
            == area.width,
        rects.sidebar.x == area.x && rects.sidebar.width == 26,
        rects.chat.x == area.x + 26 && rects.chat.width == area.width - 26,
        rects.sidebar.y == area.y && rects.chat.y == area.y,
        rects.sidebar.height == rects.root@[0].height && rects.chat.height
            == rects.root@[0].height,
{
    assert(seq![rects.sidebar, rects.chat][0] == side_by_side(rects.root@[0])[0]);
    assert(seq![rects.sidebar, rects.chat][1] == side_by_side(rects.root@[0])[1]);
}

/// The input block gets the rows that it asks for, as long as four rows are left
/// for the rest.
pub proof fn law_input_block_height(height: u16, input_height: u16)
    ensures
        height > 5 && input_height <= height - 4 ==> block_height(height, input_height)
            == input_height,
        height > 5 && input_height > height - 4 ==> block_height(height, input_height)
            == height - 4,
        height <= 5 && input_height >= 1 ==> block_height(height, input_height) == 1,
{
}

/// The inside of a bordered area leaves one cell for the border on each side, and
/// the padding left and right.
pub proof fn law_inside_of_a_border(area: Rect, padding: u16)
    requires
        area.fits(),
        area.width >= 2 + 2 * padding,
        area.height >= 2,
    ensures
        inner_area(area, padding).x == area.x + 1 + padding,
        inner_area(area, padding).y == area.y + 1,
        inner_area(area, padding).width == area.width - 2 - 2 * padding,
        inner_area(area, padding).height == area.height - 2,
{
}

/// Each mode paints its own surface over the panels, and only that one; a popup
/// for an error lies below it.
pub proof fn law_mode_paints_its_surface(mode: Mode, error_popup: bool, quit_confirm: bool)
    ensures
        ({
            let layers = frame_layers(mode, error_popup, quit_confirm);
            &&& layers.contains(Layer::DeletePopup) <==> mode is ConfirmDelete
            &&& layers.contains(Layer::StopResetPopup) <==> mode is ConfirmStopReset
            &&& layers.contains(Layer::SearchPopup) <==> mode is Searching
            &&& layers.contains(Layer::SearchAllPopup) <==> mode is SearchingAll
            &&& layers.contains(Layer::LogViewer) <==> mode is LogViewer
            &&& layers.contains(Layer::ModelPicker) <==> mode is ModelPicking
            &&& layers.contains(Layer::HelpModal) <==> mode is HelpViewing
            &&& layers.contains(Layer::RenameLine) <==> mode is Renaming
            &&& layers.contains(Layer::Input) <==> !(mode is Renaming)
            &&& layers.contains(Layer::ErrorPopup) <==> error_popup
            &&& layers.contains(Layer::QuitConfirm) <==> quit_confirm
        }),
{
    let layers = frame_layers(mode, error_popup, quit_confirm);
    let e = if error_popup {
        1int
    } else {
        0int
    };
    assert(layers[3] == editor_layer(mode));
    if error_popup {
        assert(layers[5] == Layer::ErrorPopup);
    }
    if mode_layers(mode).len() > 0 {
        assert(layers[5 + e] == mode_layers(mode)[0]);
    }
    if quit_confirm {
        assert(layers[layers.len() - 1] == Layer::QuitConfirm);
    }
}

} // verus!
