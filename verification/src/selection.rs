//! Text selection in the transcript: from the pointer to a position, and from
//! two positions to the text between them.

use vstd::prelude::*;
use crate::app::{ChatPos, ChatRowMeta, ChatSelection};
use crate::mouse::MouseAction;
use crate::style::Rect;
use crate::width::char_width_or_zero;
use crate::{app, style, text, transcript, width, wrap};

verus! {

/// Where the rows of the transcript lie on screen.
#[derive(Debug)]
pub struct ChatGeometry {
    /// The chat that the rows belong to.
    pub chat_id: String,
    /// Where the rows are painted.
    pub inner: Rect,
    /// Rows hidden above the view.
    pub skip: usize,
    pub rows: Vec<ChatRowMeta>,
}

/// How many characters of `s` end within its first `room` columns.
pub open spec fn chars_within(s: Seq<char>, room: int) -> int
    decreases s.len(),
{
    if s.len() == 0 || width::char_columns_or(s.first(), 0) > room {
        0
    } else {
        1 + chars_within(s.drop_first(), room - width::char_columns_or(s.first(), 0))
    }
}

fn count_within(s: &str, room: usize) -> (r: usize)
    ensures
        r as int == chars_within(s@, room as int),
{
    let chars = text::to_chars(s);
    let mut left: usize = room;
    let mut n: usize = 0;
    let mut full = false;
    assert(s@.skip(0) =~= s@);
    while n < chars.len() && !full
        invariant
            chars@ == s@,
            n <= chars@.len(),
            chars_within(s@, room as int) == n + (if full {
                0
            } else {
                chars_within(s@.skip(n as int), left as int)
            }),
        decreases chars@.len() - n + (if full {
            0int
        } else {
            1int
        }),
    {
        assert(s@.skip(n as int).first() == chars@[n as int]);
        assert(s@.skip(n as int).drop_first() =~= s@.skip(n + 1));
        let w = char_width_or_zero(chars[n]);
        if w > left {
            full = true;
        } else {
            left -= w;
            n += 1;
        }
    }
    n
}

impl ChatGeometry {
    /// The position under a cell: in the view, on a row of the transcript, the
    /// character that the cell shows, or the row's end.
    pub open spec fn position(self, column: u16, row: u16) -> Option<ChatPos> {
        let r = self.skip + (row - self.inner.y);
        if self.inner.holds(column, row) && r < self.rows@.len() {
            Some(
                ChatPos {
                    row: r as usize,
                    col: chars_within(
                        self.rows@[r].text@,
                        column - self.inner.x,
                    ) as usize,
                },
            )
        } else {
            None
        }
    }

    /// Finds the position under a cell.
    pub fn position_at(&self, column: u16, row: u16) -> (r: Option<ChatPos>)
        ensures
            r == self.position(column, row),
    {
        if !self.inner.contains(column, row) {
            return None;
        }
        let below: usize = (row - self.inner.y) as usize;
        if self.skip >= self.rows.len() || below >= self.rows.len() - self.skip {
            return None;
        }
        let at: usize = self.skip + below;
        let col = count_within(self.rows[at].text.as_str(), (column - self.inner.x) as usize);
        Some(ChatPos { row: at, col })
    }
}

/// The selection after an action of the mouse. A press begins a drag; a drag
/// moves its head; a release ends it, and clears it where it selected nothing.
/// Everything else leaves it alone.
pub open spec fn after(selection: Option<ChatSelection>, action: MouseAction) -> Option<
    ChatSelection,
> {
    match action {
        MouseAction::BeginSelection(point) => Some(
            ChatSelection { anchor: point, head: point, dragging: true },
        ),
        MouseAction::DragSelection(point) => match selection {
            Some(sel) if sel.dragging => Some(ChatSelection { head: point, ..sel }),
            _ => selection,
        },
        MouseAction::ClearSelection => None,
        MouseAction::ReleaseSelection => match selection {
            Some(sel) if sel.dragging => if sel.anchor == sel.head {
                None
            } else {
                Some(ChatSelection { dragging: false, ..sel })
            },
            _ => selection,
        },
        _ => selection,
    }
}

/// Whether a release has something to copy.
pub open spec fn copies(selection: Option<ChatSelection>, action: MouseAction) -> bool {
    action is ReleaseSelection && (selection matches Some(sel) && sel.dragging && sel.anchor
        != sel.head)
}

fn same_pos(a: ChatPos, b: ChatPos) -> (r: bool)
    ensures
        r == (a == b),
{
    a.row == b.row && a.col == b.col
}

/// Applies an action of the mouse to the selection. Returns whether the selected
/// text is to be copied.
pub fn apply_to_selection(selection: &mut Option<ChatSelection>, action: MouseAction) -> (r: bool)
    ensures
        *final(selection) == after(*old(selection), action),
        r == copies(*old(selection), action),
{
    match action {
        MouseAction::BeginSelection(point) => {
            *selection = Some(ChatSelection { anchor: point, head: point, dragging: true });
            false
        },
        MouseAction::DragSelection(point) => {
            match *selection {
                Some(sel) => {
                    if sel.dragging {
                        *selection = Some(ChatSelection { head: point, ..sel });
                    }
                },
                None => {},
            }
            false
        },
        MouseAction::ClearSelection => {
            *selection = None;
            false
        },
        MouseAction::ReleaseSelection => {
            match *selection {
                Some(sel) => {
                    if !sel.dragging {
                        false
                    } else if same_pos(sel.anchor, sel.head) {
                        *selection = None;
                        false
                    } else {
                        *selection = Some(ChatSelection { dragging: false, ..sel });
                        true
                    }
                },
                None => false,
            }
        },
        _ => false,
    }
}

/// A press and a release without a drag between them is a click: it clears, and
/// copies nothing.
pub proof fn law_click_clears(selection: Option<ChatSelection>, point: ChatPos)
    ensures
        ({
            let pressed = after(selection, MouseAction::BeginSelection(point));
            &&& after(pressed, MouseAction::ReleaseSelection) is None
            &&& !copies(pressed, MouseAction::ReleaseSelection)
        }),
{
}

/// The wheel leaves a selection where it is.
pub proof fn law_wheel_keeps_selection(selection: Option<ChatSelection>, n: u16)
    ensures
        after(selection, MouseAction::ChatUp(n)) == selection,
        after(selection, MouseAction::ChatDown(n)) == selection,
{
}

/// What stands between the text of a row and that of the next: a newline at a
/// real line break, and at a wrap point the blanks that wrapping left out.
pub open spec fn glue(rows: Seq<app::ChatRowMetaView>, r: int) -> Seq<char> {
    if rows[r].logical != rows[r + 1].logical {
        seq!['\n']
    } else if rows[r + 1].start > rows[r].end {
        text::repeated(' ', (rows[r + 1].start - rows[r].end) as nat)
    } else {
        Seq::empty()
    }
}

/// The selected characters of a row.
pub open spec fn piece(rows: Seq<app::ChatRowMetaView>, sel: ChatSelection, r: int) -> Seq<char> {
    let part = transcript::selected_part(
        sel,
        rows.len() as int,
        r,
        rows[r].text.len() as int,
    );
    if part.0 < part.1 {
        rows[r].text.subrange(part.0, part.1)
    } else {
        Seq::empty()
    }
}

/// The first row of a selection among `count` rows.
pub open spec fn first_row(sel: ChatSelection, count: int) -> int {
    transcript::lesser(sel.ends().0.row as int, count - 1)
}

/// The last row of a selection among `count` rows.
pub open spec fn last_row(sel: ChatSelection, count: int) -> int {
    transcript::lesser(sel.ends().1.row as int, count - 1)
}

/// The selected text from the selection's first row to the row `r`.
pub open spec fn text_to(rows: Seq<app::ChatRowMetaView>, sel: ChatSelection, r: int) -> Seq<char>
    decreases r - first_row(sel, rows.len() as int),
{
    if r <= first_row(sel, rows.len() as int) {
        piece(rows, sel, first_row(sel, rows.len() as int))
    } else {
        text_to(rows, sel, r - 1) + glue(rows, r - 1) + piece(rows, sel, r)
    }
}

/// The selected text.
pub open spec fn text_of(rows: Seq<app::ChatRowMetaView>, sel: ChatSelection) -> Seq<char> {
    if rows.len() == 0 {
        Seq::empty()
    } else {
        text_to(rows, sel, last_row(sel, rows.len() as int))
    }
}

/// Reads the selected text out of the rows: plain text, with newlines at real
/// line breaks and never at wrap points. Ends behind the content are brought
/// back to it.
pub fn selected_text(rows: &Vec<ChatRowMeta>, sel: &ChatSelection) -> (r: String)
    ensures
        r@ == text_of(app::meta_views(rows@), *sel),
{
    let ghost views = app::meta_views(rows@);
    let ghost count = rows@.len() as int;
    let mut out = String::new();
    if rows.len() == 0 {
        return out;
    }
    let (lo, hi) = sel.ordered();
    let end: usize = rows.len() - 1;
    let first: usize = if lo.row < end {
        lo.row
    } else {
        end
    };
    let last: usize = if hi.row < end {
        hi.row
    } else {
        end
    };
    let mut r: usize = first;
    assert(first <= last);
    let mut more = true;
    while more
        invariant
            views == app::meta_views(rows@),
            count == rows@.len() == views.len(),
            (lo, hi) == sel.ends(),
            first == first_row(*sel, count),
            last == last_row(*sel, count),
            first <= r <= last < rows@.len(),
            more ==> (if r == first {
                out@ == Seq::<char>::empty()
            } else {
                out@ == text_to(views, *sel, r - 1) + glue(views, r - 1)
            }),
            !more ==> out@ == text_to(views, *sel, last as int),
        decreases (if more {
            last - r + 1
        } else {
            0
        }),
    {
        assert(views[r as int] == rows@[r as int]@);
        let chars = text::to_chars(rows[r].text.as_str());
        let len: usize = chars.len();
        let from: usize = if r == first {
            if lo.col < len {
                lo.col
            } else {
                len
            }
        } else {
            0
        };
        let to: usize = if r == last {
            if hi.col < len {
                hi.col
            } else {
                len
            }
        } else {
            len
        };
        proof {
            let part = transcript::selected_part(*sel, count, r as int, len as int);
            assert(part == (from as int, to as int));
        }
        let shown = if from < to {
            text::from_chars(&chars, from, to)
        } else {
            String::new()
        };
        assert(shown@ == piece(views, *sel, r as int));
        let ghost before = out@;
        out.append(shown.as_str());
        assert(out@ =~= text_to(views, *sel, r as int)) by {
            if r == first {
                assert(before + shown@ =~= shown@);
            }
        }
        if r == last {
            more = false;
        } else {
            assert(views[r + 1] == rows@[r + 1]@);
            if rows[r].logical != rows[r + 1].logical {
                out.push('\n');
                assert(out@ =~= text_to(views, *sel, r as int) + glue(views, r as int));
            } else if rows[r + 1].start > rows[r].end {
                let blanks = text::repeat(' ', rows[r + 1].start - rows[r].end);
                out.append(blanks.as_str());
            } else {
                assert(out@ =~= text_to(views, *sel, r as int) + glue(views, r as int));
            }
            r += 1;
        }
    }
    out
}

/// The text of the first `n` rows with what stands between them.
pub open spec fn joined(rows: Seq<app::ChatRowMetaView>, n: int) -> Seq<char>
    decreases n,
{
    if n <= 1 {
        rows[0].text
    } else {
        joined(rows, n - 1) + glue(rows, n - 2) + rows[n - 1].text
    }
}

proof fn lemma_joined(line: style::LineView, logical: int, max_width: usize, n: int)
    requires
        1 <= n <= wrap::line_ranges(line, max_width).len(),
    ensures
        joined(transcript::line_meta(line, logical, max_width), n) == line.text().subrange(
            wrap::line_ranges(line, max_width)[0].0,
            wrap::line_ranges(line, max_width)[n - 1].1,
        ),
    decreases n,
{
    let rows = transcript::line_meta(line, logical, max_width);
    let found = wrap::line_ranges(line, max_width);
    let flat = wrap::line_cells(line);
    let whole = line.text();
    transcript::lemma_cells_text(line.spans, line.style);
    assert(transcript::cell_chars(flat) == whole);
    if n > 1 {
        lemma_joined(line, logical, max_width, n - 1);
        wrap::law_rows(flat, wrap::row_width(max_width));
        let a = found[n - 2];
        let b = found[n - 1];
        assert(a.1 <= b.0);
        assert forall|i: int| a.1 <= i < b.0 implies whole[i] == ' ' by {
            if flat[i].0 != ' ' {
                assert(wrap::covered(found, i));
                let k = choose|k: int|
                    0 <= k < found.len() && (#[trigger] found[k]).0 <= i < found[k].1;
                if k < n - 2 {
                    assert(found[k].1 <= found[n - 2].0);
                }
                if k > n - 1 {
                    assert(found[n - 1].1 <= found[k].0);
                }
            }
            assert(transcript::cell_chars(flat)[i] == flat[i].0);
        }
        let blanks = glue(rows, n - 2);
        assert(blanks =~= whole.subrange(a.1, b.0));
        assert(whole.subrange(found[0].0, a.1) + whole.subrange(a.1, b.0) + whole.subrange(
            b.0,
            b.1,
        ) =~= whole.subrange(found[0].0, b.1)) by {
            if n > 2 {
                assert(found[0].1 <= found[n - 2].0);
            }
        }
    }
}

/// Selecting across wrap points gives back the line as it was: the rows of a
/// line, joined, are its text from the first character shown to the last.
pub proof fn law_wrap_points_vanish(line: style::LineView, logical: int, max_width: usize)
    ensures
        ({
            let rows = transcript::line_meta(line, logical, max_width);
            let found = wrap::line_ranges(line, max_width);
            &&& rows.len() >= 1
            &&& joined(rows, rows.len() as int) == line.text().subrange(
                found[0].0,
                found.last().1,
            )
        }),
{
    if wrap::line_cells(line).len() > 0 {
        wrap::law_rows(wrap::line_cells(line), wrap::row_width(max_width));
    }
    lemma_joined(
        line,
        logical,
        max_width,
        wrap::line_ranges(line, max_width).len() as int,
    );
}

/// A selection from the start of the first row to the end of the last one reads
/// as all rows joined.
pub proof fn law_select_all(rows: Seq<app::ChatRowMetaView>, sel: ChatSelection)
    requires
        rows.len() > 0,
        sel.ends().0 == (ChatPos { row: 0, col: 0 }),
        sel.ends().1.row == rows.len() - 1,
        sel.ends().1.col == rows.last().text.len(),
    ensures
        text_of(rows, sel) == joined(rows, rows.len() as int),
{
    lemma_select_to(rows, sel, rows.len() - 1);
}

proof fn lemma_select_to(rows: Seq<app::ChatRowMetaView>, sel: ChatSelection, r: int)
    requires
        rows.len() > 0,
        0 <= r < rows.len(),
        sel.ends().0 == (ChatPos { row: 0, col: 0 }),
        sel.ends().1.row == rows.len() - 1,
        sel.ends().1.col == rows.last().text.len(),
    ensures
        text_to(rows, sel, r) == joined(rows, r + 1),
    decreases r,
{
    assert(rows[r].text.subrange(0, rows[r].text.len() as int) =~= rows[r].text);
    if r > 0 {
        lemma_select_to(rows, sel, r - 1);
    }
}

/// The columns of the first `n` characters of `s`.
pub open spec fn columns_before(s: Seq<char>, n: int) -> int
    decreases n,
{
    if n <= 0 {
        0
    } else {
        columns_before(s, n - 1) + width::char_columns_or(s[n - 1], 0)
    }
}

proof fn lemma_columns_shift(s: Seq<char>, n: int)
    requires
        0 <= n < s.len(),
    ensures
        columns_before(s, n + 1) == width::char_columns_or(s[0], 0) + columns_before(
            s.drop_first(),
            n,
        ),
    decreases n,
{
    if n > 0 {
        lemma_columns_shift(s, n - 1);
        assert(s.drop_first()[n - 1] == s[n]);
    } else {
        assert(columns_before(s, 0) == 0);
    }
}

/// A column of a row stands for the character that lies under it: the characters
/// before it take no more columns than lie before, and with that character they
/// take more.
pub proof fn law_column_names_the_character(s: Seq<char>, column: int)
    requires
        0 <= column,
    ensures
        0 <= chars_within(s, column) <= s.len(),
        columns_before(s, chars_within(s, column)) <= column,
        chars_within(s, column) < s.len() ==> columns_before(s, chars_within(s, column) + 1)
            > column,
    decreases s.len(),
{
    if s.len() > 0 && width::char_columns_or(s.first(), 0) <= column {
        let rest = s.drop_first();
        let room = column - width::char_columns_or(s.first(), 0);
        law_column_names_the_character(rest, room);
        let n = chars_within(rest, room);
        lemma_columns_shift(s, n);
        assert(columns_before(s, n + 1) <= column);
        if n + 1 < s.len() {
            lemma_columns_shift(s, n + 1);
        }
    } else if s.len() > 0 {
        assert(columns_before(s, 1) == columns_before(s, 0) + width::char_columns_or(s[0], 0));
    }
}

/// A point of the screen is a place of the transcript if and only if it lies in
/// the view and on one of the rows; the rows hidden above count.
pub proof fn law_point_to_place(g: ChatGeometry, column: u16, row: u16)
    requires
        g.rows@.len() <= usize::MAX,
    ensures
        g.position(column, row) is Some <==> (g.inner.x <= column < g.inner.right_edge()
            && g.inner.y <= row < g.inner.bottom_edge() && g.skip + (row - g.inner.y)
            < g.rows@.len()),
        g.position(column, row) matches Some(p) ==> p.row == g.skip + (row - g.inner.y),
{
}

/// A press begins a selection, a drag moves its other end and never the first
/// one, and a release ends the drag with both ends in place. Only a release of a
/// drag that went anywhere copies.
pub proof fn law_drag_selects(
    selection: Option<ChatSelection>,
    from: ChatPos,
    to: ChatPos,
    end: ChatPos,
)
    ensures
        ({
            let pressed = after(selection, MouseAction::BeginSelection(from));
            let dragged = after(
                after(pressed, MouseAction::DragSelection(to)),
                MouseAction::DragSelection(end),
            );
            let released = after(dragged, MouseAction::ReleaseSelection);
            &&& dragged matches Some(s) && s.anchor == from && s.head == end && s.dragging
            &&& from != end ==> (released matches Some(s) && s.anchor == from && s.head == end
                && !s.dragging)
            &&& from == end ==> released is None
            &&& copies(dragged, MouseAction::ReleaseSelection) <==> from != end
            &&& !copies(released, MouseAction::ReleaseSelection)
            &&& after(released, MouseAction::DragSelection(to)) == released
            &&& after(selection, MouseAction::ClearSelection) is None
        }),
{
}

/// Rows of one line are glued by the blanks that the wrap left out, rows of two
/// lines by a line break.
pub proof fn law_glue(rows: Seq<app::ChatRowMetaView>, r: int)
    requires
        0 <= r < rows.len() - 1,
    ensures
        rows[r].logical != rows[r + 1].logical ==> glue(rows, r) == seq!['\n'],
        rows[r].logical == rows[r + 1].logical && rows[r].end <= rows[r + 1].start ==> glue(
            rows,
            r,
        ).len() == rows[r + 1].start - rows[r].end,
        rows[r].logical == rows[r + 1].logical ==> forall|i: int|
            0 <= i < glue(rows, r).len() ==> #[trigger] glue(rows, r)[i] == ' ',
{
}

/// A selection within one row copies exactly the characters between its ends.
pub proof fn law_selection_in_one_row(rows: Seq<app::ChatRowMetaView>, sel: ChatSelection)
    requires
        rows.len() > 0,
        sel.ends().0.row == sel.ends().1.row,
        sel.ends().1.row < rows.len(),
        sel.ends().1.col <= rows[sel.ends().1.row as int].text.len(),
    ensures
        text_of(rows, sel) == rows[sel.ends().0.row as int].text.subrange(
            sel.ends().0.col as int,
            sel.ends().1.col as int,
        ),
{
    let (lo, hi) = sel.ends();
    let own = rows[lo.row as int].text;
    if lo.col == hi.col {
        assert(own.subrange(lo.col as int, hi.col as int) =~= Seq::empty());
    }
}

proof fn lemma_text_below(
    rows: Seq<app::ChatRowMetaView>,
    a: ChatSelection,
    b: ChatSelection,
    r: int,
)
    requires
        rows.len() > 0,
        a.ends().0 == b.ends().0,
        a.ends().0.row < rows.len(),
        r < a.ends().1.row < rows.len(),
        a.ends().0.row <= r <= b.ends().1.row,
        r == b.ends().1.row ==> b.ends().1.col == rows[r].text.len(),
        b.ends().1.row < rows.len(),
    ensures
        text_to(rows, a, r) == text_to(rows, b, r),
    decreases r,
{
    if r > a.ends().0.row {
        lemma_text_below(rows, a, b, r - 1);
    }
}

/// A selection that reaches one row further copies what it copied up to the end
/// of the row before, the glue, and the beginning of that row.
pub proof fn law_selection_goes_on(
    rows: Seq<app::ChatRowMetaView>,
    longer: ChatSelection,
    shorter: ChatSelection,
)
    requires
        longer.ends().0 == shorter.ends().0,
        0 <= longer.ends().0.row < longer.ends().1.row < rows.len(),
        shorter.ends().1.row == longer.ends().1.row - 1,
        shorter.ends().1.col == rows[shorter.ends().1.row as int].text.len(),
        longer.ends().1.col <= rows[longer.ends().1.row as int].text.len(),
    ensures
        text_of(rows, longer) == text_of(rows, shorter) + glue(
            rows,
            shorter.ends().1.row as int,
        ) + rows[longer.ends().1.row as int].text.take(longer.ends().1.col as int),
{
    let r = longer.ends().1.row as int;
    lemma_text_below(rows, longer, shorter, r - 1);
    let own = rows[r].text;
    let cut = longer.ends().1.col as int;
    if cut == 0 {
        assert(own.take(0) =~= Seq::empty());
    }
    assert(piece(rows, longer, r) =~= own.take(cut));
}

/// What is copied of a selection within one row is the text between its ends.
pub proof fn law_copy_of_one_row(rows: &Vec<ChatRowMeta>, sel: &ChatSelection, r: String)
    requires
        call_ensures(selected_text, (rows, sel), r),
        sel.anchor.row == sel.head.row,
        sel.anchor.row < rows@.len(),
        sel.anchor.col <= sel.head.col,
        sel.head.col <= rows@[sel.head.row as int].text@.len(),
    ensures
        r@ == rows@[sel.head.row as int].text@.subrange(
            sel.anchor.col as int,
            sel.head.col as int,
        ),
{
    let views = app::meta_views(rows@);
    assert(views[sel.head.row as int] == rows@[sel.head.row as int]@);
    law_selection_in_one_row(views, *sel);
}

/// The point of a press is where the row's text stands under the pointer.
pub proof fn law_press_finds_its_place(g: &ChatGeometry, column: u16, row: u16, r: Option<ChatPos>)
    requires
        call_ensures(ChatGeometry::position_at, (g, column, row), r),
        r is Some,
        g.rows@.len() <= usize::MAX,
        forall|i: int| 0 <= i < g.rows@.len() ==> (#[trigger] g.rows@[i]).text@.len() <= usize::MAX,
    ensures
        ({
            let at = r->0;
            let shown = g.rows@[at.row as int].text@;
            &&& g.inner.holds(column, row)
            &&& at.row == g.skip + (row - g.inner.y)
            &&& at.row < g.rows@.len()
            &&& at.col <= shown.len()
            &&& columns_before(shown, at.col as int) <= column - g.inner.x
            &&& at.col < shown.len() ==> columns_before(shown, at.col + 1) > column - g.inner.x
        }),
{
    let at = r->0;
    let shown = g.rows@[at.row as int].text@;
    law_column_names_the_character(shown, column - g.inner.x);
}

} // verus!
