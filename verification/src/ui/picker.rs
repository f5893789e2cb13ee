//! The model picker.

use vstd::prelude::*;
use crate::app::{ModelPickerPhase, ModelPickerState};
use crate::model_picker::{listing_row_label, ModelEntry};
use crate::style::{Color, Line, Modifier, Rect, Span, Style};
use crate::theme::Theme;
use crate::ui::layout::block_inner;
use crate::ui::popups::{center, height_of_popup, width_of_popup};
use crate::ui::{layout, popups};
use crate::width::{str_width, str_width_u16};
use crate::{model_picker, style, text, width};

verus! {

/// The decision hint of the picker.
pub const PICKER_HINT: &'static str =
    "\u{2191}\u{2193} navigate \u{00b7} PgUp/PgDn page \u{00b7} Enter switch \u{00b7} Esc close \u{00b7} Ctrl+C quit";

/// Rows of the list before it scrolls.
pub const PICKER_ROWS: usize = 12;

/// A list with its hint below, as it is painted.
#[derive(Debug)]
pub struct ListSurface {
    pub area: Rect,
    /// Where the rows go.
    pub body: Rect,
    /// Where the hint goes.
    pub footer: Rect,
    pub title: Line,
    pub border: Color,
    /// The color behind everything inside the border.
    pub background: Color,
    pub rows: Vec<Line>,
    pub hint: Line,
    /// The highlighted row, where rows can be chosen.
    pub selected: Option<usize>,
    /// What the highlight lays over the row.
    pub highlight: Style,
    /// What stands before the highlighted row.
    pub symbol: &'static str,
    /// Rows that a page turns over.
    pub page: u16,
}

/// What stands before the highlighted row of the picker.
pub const PICKER_SYMBOL: &'static str = "\u{25b8} ";

/// The part of `inner` above its last row.
pub open spec fn body_area(inner: Rect) -> Rect {
    Rect { height: layout::less(inner.height as int, 1) as u16, ..inner }
}

/// The last row of `inner`.
pub open spec fn footer_area(inner: Rect) -> Rect {
    Rect { y: (inner.y + layout::less(inner.height as int, 1)) as u16, height: 1, ..inner }
}

/// Rows that a page turns over in `body`.
pub open spec fn page_rows(body: Rect) -> u16 {
    if body.height == 0 {
        1
    } else {
        body.height
    }
}

/// Splits the inside of a popup into its body and its last row.
pub fn body_and_footer(inner: Rect) -> (r: (Rect, Rect))
    requires
        inner.y + inner.height <= u16::MAX,
    ensures
        r.0 == body_area(inner),
        r.1 == footer_area(inner),
{
    let above: u16 = inner.height.saturating_sub(1);
    (
        Rect::new(inner.x, inner.y, inner.width, above),
        Rect::new(inner.x, inner.y + above, inner.width, 1),
    )
}

/// One row of the list: the sign of the active model, then the listing row.
pub open spec fn entry_row(e: model_picker::ModelEntryView, theme: Theme) -> style::LineView {
    style::line(
        seq![
            if e.active {
                style::span("\u{25cf} "@, style::fg(theme.green))
            } else {
                style::span("  "@, style::plain())
            },
            style::span(model_picker::row_label(e), style::fg(theme.fg)),
        ],
    )
}

/// The rows of the list.
pub open spec fn entry_rows(entries: Seq<ModelEntry>, theme: Theme) -> Seq<style::LineView> {
    Seq::new(entries.len(), |i: int| entry_row(entries[i]@, theme))
}

/// The columns of the widest row among the first `n` entries; at least zero.
pub open spec fn widest_label(entries: Seq<ModelEntry>, n: int) -> nat
    decreases n,
{
    if n <= 0 {
        0
    } else {
        let w = width::columns(model_picker::row_label(entries[n - 1]@));
        if w > widest_label(entries, n - 1) {
            w
        } else {
            widest_label(entries, n - 1)
        }
    }
}

/// The columns that the picker wants for its rows.
pub open spec fn row_need(entries: Seq<ModelEntry>) -> int {
    let widest = if entries.len() == 0 {
        16
    } else {
        widest_label(entries, entries.len() as int) as int
    };
    if widest + 2 < 60 {
        widest + 2
    } else {
        60
    }
}

/// The columns that the picker wants.
pub open spec fn picker_need(entries: Seq<ModelEntry>) -> int {
    popups::greater(
        popups::greater((width::columns(PICKER_HINT@) % 65536) as int + 12, 40),
        row_need(entries),
    )
}

/// The rows that the picker's body wants.
pub open spec fn picker_rows(state: ModelPickerState) -> int {
    let count = state.entries@.len();
    if state.phase == ModelPickerPhase::Loading || count < 1 {
        1
    } else if count > PICKER_ROWS {
        PICKER_ROWS as int
    } else {
        count as int
    }
}

/// The picker's box.
pub open spec fn picker_area(state: ModelPickerState, frame: Rect) -> Rect {
    popups::centered(
        frame,
        popups::popup_width(frame.width, picker_need(state.entries@)),
        popups::popup_height(frame.height, picker_rows(state) + 3),
    )
}

/// The picker's title.
pub open spec fn picker_title(state: ModelPickerState) -> Seq<char> {
    if state.phase == ModelPickerPhase::Loading {
        " Model picker "@
    } else {
        " Model picker \u{00b7} "@ + text::decimal(state.entries@.len()) + " models "@
    }
}

fn widest_entry(entries: &Vec<ModelEntry>) -> (r: usize)
    ensures
        r as int == (if entries@.len() == 0 {
            16
        } else {
            widest_label(entries@, entries@.len() as int) as int
        }),
{
    if entries.len() == 0 {
        return 16;
    }
    let mut widest: usize = 0;
    let mut i: usize = 0;
    while i < entries.len()
        invariant
            i <= entries@.len(),
            widest == widest_label(entries@, i as int),
        decreases entries@.len() - i,
    {
        let label = listing_row_label(&entries[i]);
        let w = str_width(label.as_str());
        if w > widest {
            widest = w;
        }
        i += 1;
    }
    widest
}

/// Builds the model picker.
pub fn render_model_picker(state: &ModelPickerState, frame: Rect, theme: &Theme) -> (r: ListSurface)
    requires
        frame.fits(),
        frame.y + 3 <= u16::MAX,
    ensures
        r.area == picker_area(*state, frame),
        r.body == body_area(layout::inner_area(r.area, 1)),
        r.footer == footer_area(layout::inner_area(r.area, 1)),
        r.title@ == style::line_of(
            picker_title(*state),
            style::fg(theme.blue).plus(Modifier::Bold),
        ),
        r.border == theme.blue,
        r.background == theme.bg,
        r.highlight == style::bg(theme.selection).plus(Modifier::Bold),
        r.symbol@ == PICKER_SYMBOL@,
        style::line_views(r.rows@) == (if state.phase == ModelPickerPhase::Loading {
            seq![style::line_of("loading models\u{2026}"@, style::fg(theme.dim))]
        } else {
            entry_rows(state.entries@, *theme)
        }),
        r.hint@ == style::line_of(PICKER_HINT@, style::fg(theme.yellow)),
        r.selected == (if state.phase == ModelPickerPhase::Loading {
            None
        } else {
            Some(state.selected)
        }),
        r.page == page_rows(r.body),
{
    let loading = match state.phase {
        ModelPickerPhase::Loading => true,
        ModelPickerPhase::Ready => false,
    };
    let count: usize = state.entries.len();
    let number = text::decimal_usize(count);
    let title = if loading {
        text::owned(" Model picker ")
    } else {
        text::concat3(" Model picker \u{00b7} ", number.as_str(), " models ")
    };
    let widest = widest_entry(&state.entries);
    let rows_want: u32 = if widest < 58 {
        widest as u32 + 2
    } else {
        60
    };
    let hint_want: u32 = str_width_u16(PICKER_HINT) as u32 + 12;
    let floor: u32 = if hint_want > 40 {
        hint_want
    } else {
        40
    };
    let wanted: u32 = if floor > rows_want {
        floor
    } else {
        rows_want
    };
    let body_rows: u16 = if loading || count < 1 {
        1
    } else if count > PICKER_ROWS {
        PICKER_ROWS as u16
    } else {
        count as u16
    };
    let area = center(
        frame,
        width_of_popup(frame.width, wanted),
        height_of_popup(frame.height, body_rows + 3),
    );
    let inner = block_inner(area, 1);
    let (body, footer) = body_and_footer(inner);
    let page: u16 = if body.height == 0 {
        1
    } else {
        body.height
    };
    let mut rows: Vec<Line> = Vec::new();
    if loading {
        broadcast use style::line_views_push;

        rows.push(
            Line::styled(text::owned("loading models\u{2026}"), Style::new().fg(theme.dim)),
        );
        assert(style::line_views(rows@) =~= seq![
            style::line_of("loading models\u{2026}"@, style::fg(theme.dim)),
        ]);
    } else {
        let ghost goal = entry_rows(state.entries@, *theme);
        let mut i: usize = 0;
        assert(style::line_views(rows@) =~= goal.take(0));
        while i < state.entries.len()
            invariant
                i <= state.entries@.len(),
                goal == entry_rows(state.entries@, *theme),
                style::line_views(rows@) == goal.take(i as int),
            decreases state.entries@.len() - i,
        {
            broadcast use {style::span_views_push, style::line_views_push};

            let e = &state.entries[i];
            let mut spans: Vec<Span> = Vec::new();
            if e.active {
                spans.push(Span::styled(text::owned("\u{25cf} "), Style::new().fg(theme.green)));
            } else {
                spans.push(Span::styled(text::owned("  "), Style::new()));
            }
            spans.push(Span::styled(listing_row_label(e), Style::new().fg(theme.fg)));
            assert(style::span_views(spans@) =~= goal[i as int].spans);
            rows.push(Line::from_spans(spans));
            i += 1;
            assert(goal.take(i as int) =~= goal.take(i - 1).push(goal[i - 1]));
        }
        assert(goal.take(i as int) =~= goal);
    }
    ListSurface {
        area,
        body,
        footer,
        title: Line::styled(title, Style::new().fg(theme.blue).add_modifier(Modifier::Bold)),
        border: theme.blue,
        background: theme.bg,
        rows,
        hint: Line::styled(text::owned(PICKER_HINT), Style::new().fg(theme.yellow)),
        selected: if loading {
            None
        } else {
            Some(state.selected)
        },
        highlight: Style::new().bg(theme.selection).add_modifier(Modifier::Bold),
        symbol: PICKER_SYMBOL,
        page,
    }
}

/// The hint lies below the list, in the popup's last row inside the border.
pub proof fn law_footer_below_body(inner: Rect)
    requires
        inner.fits(),
        inner.height > 0,
    ensures
        footer_area(inner).y == body_area(inner).y + body_area(inner).height,
        footer_area(inner).y + 1 == inner.y + inner.height,
{
}

/// The picker lists every model in order, each with its label and a dot where it
/// is the active one.
pub proof fn law_picker_lists_every_model(entries: Seq<ModelEntry>, theme: Theme, i: int)
    requires
        0 <= i < entries.len(),
    ensures
        ({
            let row = entry_rows(entries, theme)[i];
            &&& entry_rows(entries, theme).len() == entries.len()
            &&& row.spans.len() == 2
            &&& row.spans[1].content == model_picker::row_label(entries[i]@)
            &&& row.spans[0].content == (if entries[i].active {
                seq!['\u{25cf}', ' ']
            } else {
                seq![' ', ' ']
            })
        }),
{
    reveal_strlit("\u{25cf} ");
    reveal_strlit("  ");
    assert("\u{25cf} "@ =~= seq!['\u{25cf}', ' ']);
    assert("  "@ =~= seq![' ', ' ']);
}

proof fn lemma_widest_label(entries: Seq<ModelEntry>, n: int)
    requires
        0 <= n <= entries.len(),
    ensures
        forall|i: int|
            0 <= i < n ==> width::columns(model_picker::row_label((#[trigger] entries[i])@))
                <= widest_label(entries, n),
        n > 0 ==> exists|i: int|
            0 <= i < n && width::columns(model_picker::row_label((#[trigger] entries[i])@))
                == widest_label(entries, n),
    decreases n,
{
    if n > 0 {
        lemma_widest_label(entries, n - 1);
        if n == 1 {
            assert(width::columns(model_picker::row_label(entries[0]@)) == widest_label(
                entries,
                1,
            )) by {
                assert(widest_label(entries, 0) == 0);
            }
        }
    }
}

/// The picker is as wide as its widest row needs, up to sixty columns of rows, and
/// has a row for each model up to twelve.
pub proof fn law_picker_has_room(state: ModelPickerState)
    ensures
        forall|i: int|
            0 <= i < state.entries@.len() ==> width::columns(
                model_picker::row_label((#[trigger] state.entries@[i])@),
            ) + 2 <= picker_need(state.entries@) || picker_need(state.entries@) >= 60,
        1 <= picker_rows(state) <= 12,
        state.phase == ModelPickerPhase::Ready && 1 <= state.entries@.len() <= 12 ==> picker_rows(
            state,
        ) == state.entries@.len(),
        state.phase == ModelPickerPhase::Ready && state.entries@.len() > 12 ==> picker_rows(state)
            == 12,
        state.phase == ModelPickerPhase::Loading ==> picker_rows(state) == 1,
{
    lemma_widest_label(state.entries@, state.entries@.len() as int);
}

/// The picker shows its models in order once they are there, with the selected one
/// highlighted, and says that they load before.
pub proof fn law_picker_surface(
    state: &ModelPickerState,
    frame: Rect,
    theme: &Theme,
    r: ListSurface,
    i: int,
)
    requires
        call_ensures(render_model_picker, (state, frame, theme), r),
        0 <= i < state.entries@.len(),
    ensures
        state.phase == ModelPickerPhase::Ready ==> {
            &&& r.rows@.len() == state.entries@.len()
            &&& r.rows@[i]@.spans[1].content == model_picker::row_label(state.entries@[i]@)
            &&& r.selected == Some(state.selected)
            &&& r.title@.spans[0].content == " Model picker \u{00b7} "@ + text::decimal(
                state.entries@.len(),
            ) + " models "@
        },
        state.phase == ModelPickerPhase::Loading ==> r.rows@.len() == 1 && r.selected is None
            && r.rows@[0]@.spans[0].content == "loading models\u{2026}"@,
{
    assert(style::line_views(r.rows@).len() == r.rows@.len());
    if state.phase == ModelPickerPhase::Ready {
        law_picker_lists_every_model(state.entries@, *theme, i);
        assert(style::line_views(r.rows@)[i] == r.rows@[i]@);
    } else {
        assert(style::line_views(r.rows@)[0] == r.rows@[0]@);
    }
}

} // verus!
