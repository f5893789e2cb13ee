//! Styled text and screen rectangles: the values the views are made of.

use vstd::prelude::*;

verus! {

/// A terminal color.
#[derive(Clone, Copy, Debug, PartialEq, Eq, Structural)]
pub enum Color {
    /// 24-bit color.
    Rgb(u8, u8, u8),
}

/// A text attribute.
#[derive(Clone, Copy, Debug, PartialEq, Eq, Structural)]
pub enum Modifier {
    Bold,
    Italic,
    Underlined,
    /// Foreground and background swapped.
    Reversed,
    CrossedOut,
}

/// A set of text attributes.
#[derive(Clone, Copy, Debug, PartialEq, Eq, Structural)]
pub struct Modifiers {
    pub bold: bool,
    pub italic: bool,
    pub underlined: bool,
    pub reversed: bool,
    pub crossed_out: bool,
}

/// No attribute.
pub open spec fn no_modifiers() -> Modifiers {
    Modifiers {
        bold: false,
        italic: false,
        underlined: false,
        reversed: false,
        crossed_out: false,
    }
}

impl Modifier {
    /// The set of this attribute alone.
    pub open spec fn alone(self) -> Modifiers {
        Modifiers {
            bold: self is Bold,
            italic: self is Italic,
            underlined: self is Underlined,
            reversed: self is Reversed,
            crossed_out: self is CrossedOut,
        }
    }

    fn to_set(self) -> (r: Modifiers)
        ensures
            r == self.alone(),
    {
        Modifiers {
            bold: matches!(self, Modifier::Bold),
            italic: matches!(self, Modifier::Italic),
            underlined: matches!(self, Modifier::Underlined),
            reversed: matches!(self, Modifier::Reversed),
            crossed_out: matches!(self, Modifier::CrossedOut),
        }
    }
}

impl Modifiers {
    /// The attributes of either set.
    pub open spec fn or(self, other: Modifiers) -> Modifiers {
        Modifiers {
            bold: self.bold || other.bold,
            italic: self.italic || other.italic,
            underlined: self.underlined || other.underlined,
            reversed: self.reversed || other.reversed,
            crossed_out: self.crossed_out || other.crossed_out,
        }
    }

    /// The attributes of this set that `other` lacks.
    pub open spec fn minus(self, other: Modifiers) -> Modifiers {
        Modifiers {
            bold: self.bold && !other.bold,
            italic: self.italic && !other.italic,
            underlined: self.underlined && !other.underlined,
            reversed: self.reversed && !other.reversed,
            crossed_out: self.crossed_out && !other.crossed_out,
        }
    }

    /// No attribute.
    pub fn none() -> (r: Modifiers)
        ensures
            r == no_modifiers(),
    {
        Modifiers {
            bold: false,
            italic: false,
            underlined: false,
            reversed: false,
            crossed_out: false,
        }
    }

    /// The attributes of either set.
    pub fn union(self, other: Modifiers) -> (r: Modifiers)
        ensures
            r == self.or(other),
    {
        Modifiers {
            bold: self.bold || other.bold,
            italic: self.italic || other.italic,
            underlined: self.underlined || other.underlined,
            reversed: self.reversed || other.reversed,
            crossed_out: self.crossed_out || other.crossed_out,
        }
    }

    /// The attributes of this set that `other` lacks.
    pub fn difference(self, other: Modifiers) -> (r: Modifiers)
        ensures
            r == self.minus(other),
    {
        Modifiers {
            bold: self.bold && !other.bold,
            italic: self.italic && !other.italic,
            underlined: self.underlined && !other.underlined,
            reversed: self.reversed && !other.reversed,
            crossed_out: self.crossed_out && !other.crossed_out,
        }
    }
}

/// An incremental style: what it sets, what it adds and what it takes away.
#[derive(Clone, Copy, Debug, PartialEq, Eq, Structural)]
pub struct Style {
    pub fg: Option<Color>,
    pub bg: Option<Color>,
    pub add_modifier: Modifiers,
    pub sub_modifier: Modifiers,
}

/// The style that changes nothing.
pub open spec fn plain() -> Style {
    Style { fg: None, bg: None, add_modifier: no_modifiers(), sub_modifier: no_modifiers() }
}

/// The style that sets the foreground alone.
pub open spec fn fg(color: Color) -> Style {
    plain().with_fg(color)
}

/// The style that sets the background alone.
pub open spec fn bg(color: Color) -> Style {
    plain().with_bg(color)
}

impl Style {
    /// The same style with foreground `color`.
    pub open spec fn with_fg(self, color: Color) -> Style {
        Style { fg: Some(color), ..self }
    }

    /// The same style with background `color`.
    pub open spec fn with_bg(self, color: Color) -> Style {
        Style { bg: Some(color), ..self }
    }

    /// The same style, with `m` added.
    pub open spec fn plus(self, m: Modifier) -> Style {
        Style {
            add_modifier: self.add_modifier.or(m.alone()),
            sub_modifier: self.sub_modifier.minus(m.alone()),
            ..self
        }
    }

    /// The same style, with `m` taken away.
    pub open spec fn without(self, m: Modifier) -> Style {
        Style {
            add_modifier: self.add_modifier.minus(m.alone()),
            sub_modifier: self.sub_modifier.or(m.alone()),
            ..self
        }
    }

    /// `other` laid over this style: what `other` sets wins.
    pub open spec fn patched(self, other: Style) -> Style {
        Style {
            fg: if other.fg is Some {
                other.fg
            } else {
                self.fg
            },
            bg: if other.bg is Some {
                other.bg
            } else {
                self.bg
            },
            add_modifier: self.add_modifier.minus(other.sub_modifier).or(other.add_modifier),
            sub_modifier: self.sub_modifier.minus(other.add_modifier).or(other.sub_modifier),
        }
    }

    /// The style that changes nothing.
    pub fn new() -> (r: Style)
        ensures
            r == plain(),
    {
        Style { fg: None, bg: None, add_modifier: Modifiers::none(), sub_modifier: Modifiers::none() }
    }

    /// Sets the foreground.
    pub fn fg(self, color: Color) -> (r: Style)
        ensures
            r == self.with_fg(color),
    {
        Style { fg: Some(color), ..self }
    }

    /// Sets the background.
    pub fn bg(self, color: Color) -> (r: Style)
        ensures
            r == self.with_bg(color),
    {
        Style { bg: Some(color), ..self }
    }

    /// Adds attributes.
    pub fn add_modifier(self, m: Modifier) -> (r: Style)
        ensures
            r == self.plus(m),
    {
        Style {
            add_modifier: self.add_modifier.union(m.to_set()),
            sub_modifier: self.sub_modifier.difference(m.to_set()),
            ..self
        }
    }

    /// Takes attributes away.
    pub fn remove_modifier(self, m: Modifier) -> (r: Style)
        ensures
            r == self.without(m),
    {
        Style {
            add_modifier: self.add_modifier.difference(m.to_set()),
            sub_modifier: self.sub_modifier.union(m.to_set()),
            ..self
        }
    }

    /// Lays `other` over this style.
    pub fn patch(self, other: Style) -> (r: Style)
        ensures
            r == self.patched(other),
    {
        Style {
            fg: if other.fg.is_some() {
                other.fg
            } else {
                self.fg
            },
            bg: if other.bg.is_some() {
                other.bg
            } else {
                self.bg
            },
            add_modifier: self.add_modifier.difference(other.sub_modifier).union(
                other.add_modifier,
            ),
            sub_modifier: self.sub_modifier.difference(other.add_modifier).union(
                other.sub_modifier,
            ),
        }
    }
}

/// A run of text in one style.
#[derive(Debug)]
pub struct Span {
    pub content: String,
    pub style: Style,
}

/// What a [`Span`] holds.
#[verifier::ext_equal]
pub struct SpanView {
    pub content: Seq<char>,
    pub style: Style,
}

impl View for Span {
    type V = SpanView;

    open spec fn view(&self) -> SpanView {
        SpanView { content: self.content@, style: self.style }
    }
}

/// The span of text `content` in `style`.
pub open spec fn span(content: Seq<char>, style: Style) -> SpanView {
    SpanView { content, style }
}

impl Span {
    /// A span of `content` in `style`.
    pub fn styled(content: String, style: Style) -> (r: Span)
        ensures
            r@ == span(content@, style),
    {
        Span { content, style }
    }

    /// A span of `content` in the style that changes nothing.
    pub fn raw(content: String) -> (r: Span)
        ensures
            r@ == span(content@, plain()),
    {
        Span { content, style: Style::new() }
    }
}

impl Clone for Span {
    fn clone(&self) -> (r: Span)
        ensures
            r@ == self@,
    {
        Span { content: self.content.clone(), style: self.style }
    }
}

/// What a list of spans holds.
pub open spec fn span_views(v: Seq<Span>) -> Seq<SpanView> {
    Seq::new(v.len(), |i: int| v[i]@)
}

pub broadcast proof fn span_views_push(v: Seq<Span>, s: Span)
    ensures
        #[trigger] span_views(v.push(s)) == span_views(v).push(s@),
{
    assert(span_views(v.push(s)) =~= span_views(v).push(s@));
}

/// One line of styled text; the line's style lies under the styles of its spans.
#[derive(Debug)]
pub struct Line {
    pub spans: Vec<Span>,
    pub style: Style,
}

/// What a [`Line`] holds.
#[verifier::ext_equal]
pub struct LineView {
    pub spans: Seq<SpanView>,
    pub style: Style,
}

impl View for Line {
    type V = LineView;

    open spec fn view(&self) -> LineView {
        LineView { spans: span_views(self.spans@), style: self.style }
    }
}

/// The line of these spans.
pub open spec fn line(spans: Seq<SpanView>) -> LineView {
    LineView { spans, style: plain() }
}

/// The line of one span: `content` in `style`.
pub open spec fn line_of(content: Seq<char>, style: Style) -> LineView {
    line(seq![span(content, style)])
}

/// The line without spans: what the empty string makes.
pub open spec fn blank() -> LineView {
    line(Seq::empty())
}

/// The text of a list of spans.
pub open spec fn spans_text(s: Seq<SpanView>) -> Seq<char>
    decreases s.len(),
{
    if s.len() == 0 {
        Seq::empty()
    } else {
        spans_text(s.drop_last()) + s.last().content
    }
}

impl LineView {
    /// The line's text, without its styles.
    pub open spec fn text(self) -> Seq<char> {
        spans_text(self.spans)
    }
}

impl Line {
    /// A line of `spans`.
    pub fn from_spans(spans: Vec<Span>) -> (r: Line)
        ensures
            r@ == line(span_views(spans@)),
    {
        Line { spans, style: Style::new() }
    }

    /// A line of one span.
    pub fn styled(content: String, style: Style) -> (r: Line)
        ensures
            r@ == line_of(content@, style),
    {
        broadcast use span_views_push;

        let mut spans: Vec<Span> = Vec::new();
        spans.push(Span::styled(content, style));
        assert(span_views(spans@) =~= seq![span(content@, style)]);
        Line::from_spans(spans)
    }

    /// The line without spans.
    pub fn blank() -> (r: Line)
        ensures
            r@ == blank(),
    {
        let spans: Vec<Span> = Vec::new();
        assert(span_views(spans@) =~= Seq::empty());
        Line::from_spans(spans)
    }

    /// The line's text, without its styles.
    pub fn plain_text(&self) -> (r: String)
        ensures
            r@ == self@.text(),
    {
        let mut out = String::new();
        let mut i: usize = 0;
        assert(self@.spans.take(0) =~= Seq::empty());
        while i < self.spans.len()
            invariant
                i <= self.spans@.len(),
                out@ == spans_text(self@.spans.take(i as int)),
            decreases self.spans@.len() - i,
        {
            out.append(self.spans[i].content.as_str());
            i += 1;
            assert(self@.spans.take(i as int).drop_last() =~= self@.spans.take(i - 1));
        }
        assert(self@.spans.take(i as int) =~= self@.spans);
        out
    }
}

impl Clone for Line {
    fn clone(&self) -> (r: Line)
        ensures
            r@ == self@,
    {
        let mut spans: Vec<Span> = Vec::new();
        let mut i: usize = 0;
        assert(span_views(spans@) =~= self@.spans.take(0));
        while i < self.spans.len()
            invariant
                i <= self.spans@.len(),
                span_views(spans@) == self@.spans.take(i as int),
            decreases self.spans@.len() - i,
        {
            broadcast use span_views_push;

            spans.push(self.spans[i].clone());
            i += 1;
            assert(self@.spans.take(i as int) =~= self@.spans.take(i - 1).push(
                self@.spans[i - 1],
            ));
        }
        assert(self@.spans.take(i as int) =~= self@.spans);
        Line { spans, style: self.style }
    }
}

/// What a list of lines holds.
pub open spec fn line_views(v: Seq<Line>) -> Seq<LineView> {
    Seq::new(v.len(), |i: int| v[i]@)
}

pub broadcast proof fn line_views_push(v: Seq<Line>, l: Line)
    ensures
        #[trigger] line_views(v.push(l)) == line_views(v).push(l@),
{
    assert(line_views(v.push(l)) =~= line_views(v).push(l@));
}

pub broadcast proof fn line_views_add(a: Seq<Line>, b: Seq<Line>)
    ensures
        #[trigger] line_views(a + b) == line_views(a) + line_views(b),
{
    assert(line_views(a + b) =~= line_views(a) + line_views(b));
}

/// A rectangle of terminal cells.
#[derive(Clone, Copy, Debug, PartialEq, Eq, Structural)]
pub struct Rect {
    pub x: u16,
    pub y: u16,
    pub width: u16,
    pub height: u16,
}

impl Rect {
    /// The column right of the rectangle, at most the last representable one.
    pub open spec fn right_edge(self) -> int {
        if self.x + self.width > u16::MAX {
            u16::MAX as int
        } else {
            self.x + self.width
        }
    }

    /// The row below the rectangle, at most the last representable one.
    pub open spec fn bottom_edge(self) -> int {
        if self.y + self.height > u16::MAX {
            u16::MAX as int
        } else {
            self.y + self.height
        }
    }

    /// Whether every cell of the rectangle has representable coordinates.
    pub open spec fn fits(self) -> bool {
        self.x + self.width <= u16::MAX && self.y + self.height <= u16::MAX
    }

    /// Whether the cell at `column`, `row` lies in the rectangle.
    pub open spec fn holds(self, column: u16, row: u16) -> bool {
        self.x <= column < self.right_edge() && self.y <= row < self.bottom_edge()
    }

    pub fn new(x: u16, y: u16, width: u16, height: u16) -> (r: Rect)
        ensures
            r == (Rect { x, y, width, height }),
    {
        Rect { x, y, width, height }
    }

    /// The column right of the rectangle.
    pub fn right(self) -> (r: u16)
        ensures
            r == self.right_edge(),
    {
        self.x.saturating_add(self.width)
    }

    /// The row below the rectangle.
    pub fn bottom(self) -> (r: u16)
        ensures
            r == self.bottom_edge(),
    {
        self.y.saturating_add(self.height)
    }

    /// Whether the cell at `column`, `row` lies in the rectangle.
    pub fn contains(self, column: u16, row: u16) -> (r: bool)
        ensures
            r == self.holds(column, row),
    {
        column >= self.x && column < self.right() && row >= self.y && row < self.bottom()
    }
}

/// A style laid over another wins where it says anything, and leaves the rest.
pub proof fn law_patch_wins(under: Style, over: Style)
    ensures
        over.fg is Some ==> under.patched(over).fg == over.fg,
        over.fg is None ==> under.patched(over).fg == under.fg,
        over.bg is Some ==> under.patched(over).bg == over.bg,
        over.bg is None ==> under.patched(over).bg == under.bg,
        over.add_modifier.bold ==> under.patched(over).add_modifier.bold,
        over.sub_modifier.bold && !over.add_modifier.bold ==> !under.patched(
            over,
        ).add_modifier.bold,
        !over.add_modifier.bold && !over.sub_modifier.bold ==> under.patched(over).add_modifier.bold
            == under.add_modifier.bold,
        over.add_modifier.italic ==> under.patched(over).add_modifier.italic,
        over.add_modifier.underlined ==> under.patched(over).add_modifier.underlined,
        over.add_modifier.reversed ==> under.patched(over).add_modifier.reversed,
        over.add_modifier.crossed_out ==> under.patched(over).add_modifier.crossed_out,
        under.patched(plain()) == under,
{
}

/// Adding an attribute adds it alone, and taking it away takes it alone.
pub proof fn law_attributes_add_and_go(st: Style, m: Modifier, other: Modifier)
    requires
        other != m,
    ensures
        st.plus(m).add_modifier.or(m.alone()) == st.plus(m).add_modifier,
        st.plus(m).add_modifier.minus(m.alone()) == st.add_modifier.minus(m.alone()),
        st.without(m).add_modifier == st.add_modifier.minus(m.alone()),
        (m is Bold ==> st.plus(m).add_modifier.bold && !st.without(m).add_modifier.bold),
        (m is Italic ==> st.plus(m).add_modifier.italic && !st.without(m).add_modifier.italic),
        (m is Underlined ==> st.plus(m).add_modifier.underlined && !st.without(
            m,
        ).add_modifier.underlined),
        (m is Reversed ==> st.plus(m).add_modifier.reversed && !st.without(
            m,
        ).add_modifier.reversed),
        (m is CrossedOut ==> st.plus(m).add_modifier.crossed_out && !st.without(
            m,
        ).add_modifier.crossed_out),
        (other is Bold ==> st.plus(m).add_modifier.bold == st.add_modifier.bold),
        (other is Italic ==> st.plus(m).add_modifier.italic == st.add_modifier.italic),
        (other is Reversed ==> st.plus(m).add_modifier.reversed == st.add_modifier.reversed),
        st.plus(m).fg == st.fg && st.plus(m).bg == st.bg,
        st.without(m).fg == st.fg && st.without(m).bg == st.bg,
{
}

/// The text of spans is that of each, one behind the other.
pub proof fn law_text_of_spans(spans: Seq<SpanView>, last: SpanView)
    ensures
        spans_text(Seq::empty()).len() == 0,
        spans_text(spans.push(last)) == spans_text(spans) + last.content,
        line(spans).text() == spans_text(spans),
        line(spans).style == plain(),
        line_of(last.content, last.style).text() == last.content,
{
    assert(spans.push(last).drop_last() =~= spans);
    reveal_with_fuel(spans_text, 2);
    let one = line_of(last.content, last.style);
    assert(one.spans.drop_last() =~= Seq::empty());
    assert(one.text() =~= last.content);
}

/// A rectangle holds the cells from its corner on, as many as it is wide and high.
pub proof fn law_rectangle_holds_its_cells(r: Rect, column: u16, row: u16)
    requires
        r.fits(),
    ensures
        r.holds(column, row) <==> (r.x <= column < r.x + r.width && r.y <= row < r.y + r.height),
{
}

} // verus!
