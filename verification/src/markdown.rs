//! Markdown rendering: parser events become styled lines.
//!
//! Headings, emphasis, inline code, fenced code blocks as a bordered panel with
//! a language label, ordered, unordered and task lists, block quotes, rules,
//! links and column-aligned tables.

pub mod events;
pub mod panel;
pub mod table;

use vstd::prelude::*;
use crate::style::{Line, Modifier, Span, Style};
use crate::theme::{Highlighter, Theme};
use crate::{style, text, theme};
use events::{open_end, open_event, open_tag, parse_events, MdEvent, MdTag, MdTagEnd, RawEvent};

verus! {

/// One rendered markdown line.
pub type MdLine = Line;

/// What the renderer has gathered so far.
#[verifier::ext_equal]
pub struct Progress {
    /// Finished lines.
    pub out: Seq<style::LineView>,
    /// The spans of the line in progress.
    pub spans: Seq<style::SpanView>,
    pub in_code: bool,
    pub code_lang: Seq<char>,
    pub code_buf: Seq<char>,
    /// The next number of each open list, the innermost last; none for a list
    /// of bullets.
    pub counters: Seq<Option<u64>>,
    /// How many block quotes are open.
    pub quotes: int,
    pub inline: Style,
    pub in_table: bool,
    pub table: Seq<Seq<Seq<char>>>,
    pub aligns: Seq<u8>,
    pub row: Seq<Seq<char>>,
    pub link: Option<Seq<char>>,
}

/// Nothing gathered.
pub open spec fn start() -> Progress {
    Progress {
        out: Seq::empty(),
        spans: Seq::empty(),
        in_code: false,
        code_lang: Seq::empty(),
        code_buf: Seq::empty(),
        counters: Seq::empty(),
        quotes: 0,
        inline: style::plain(),
        in_table: false,
        table: Seq::empty(),
        aligns: Seq::empty(),
        row: Seq::empty(),
        link: None,
    }
}

/// The bars before quoted text: one per open block quote.
pub open spec fn quote_bars(n: int) -> Seq<char>
    decreases n,
{
    if n <= 0 {
        Seq::empty()
    } else {
        quote_bars(n - 1) + seq!['\u{2502}', ' ']
    }
}

/// The style of a heading of level `level`.
pub open spec fn heading_style(level: u8, t: Theme) -> Style {
    if level <= 2 {
        style::fg(t.blue).plus(Modifier::Bold)
    } else {
        style::fg(t.purple).plus(Modifier::Bold)
    }
}

impl Progress {
    /// Finishes the line in progress.
    pub open spec fn flushed(self) -> Progress {
        Progress { out: self.out.push(style::line(self.spans)), spans: Seq::empty(), ..self }
    }

    /// Adds a finished line.
    pub open spec fn with_line(self, l: style::LineView) -> Progress {
        Progress { out: self.out.push(l), ..self }
    }

    /// Adds a span to the line in progress.
    pub open spec fn with_span(self, content: Seq<char>, st: Style) -> Progress {
        Progress { spans: self.spans.push(style::span(content, st)), ..self }
    }

    /// Adds the bars of the open block quotes, if any.
    pub open spec fn quoted(self, t: Theme) -> Progress {
        if self.quotes > 0 {
            self.with_span(quote_bars(self.quotes), style::fg(t.green))
        } else {
            self
        }
    }

    /// Adds the first `n` lines of a text, each after the first on a new line.
    pub open spec fn with_pieces(self, pieces: Seq<Seq<char>>, n: int, st: Style, t: Theme) -> Progress
        decreases n,
    {
        if n <= 0 {
            self
        } else {
            let before = self.with_pieces(pieces, n - 1, st, t);
            let at = if n > 1 {
                before.flushed().quoted(t)
            } else {
                before
            };
            if pieces[n - 1].len() > 0 {
                at.with_span(pieces[n - 1], st)
            } else {
                at
            }
        }
    }

    /// Adds text, which may hold several lines.
    pub open spec fn with_text(self, content: Seq<char>, st: Style, t: Theme) -> Progress {
        let pieces = text::split(content, '\n');
        self.with_pieces(pieces, pieces.len() as int, st, t)
    }

    /// Adds text to the open table cell.
    pub open spec fn with_cell_text(self, content: Seq<char>) -> Progress {
        let row = if self.row.len() == 0 {
            seq![Seq::<char>::empty()]
        } else {
            self.row
        };
        Progress { row: row.drop_last().push(row.last() + content), ..self }
    }

    /// Closes a table cell, also one that got no text, and opens the one behind it.
    pub open spec fn with_cell_closed(self) -> Progress {
        Progress { row: self.with_cell_text(Seq::empty()).row.push(Seq::empty()), ..self }
    }

    /// Closes a table row: the cell opened behind its last one is dropped.
    pub open spec fn with_row_closed(self) -> Progress {
        if self.row.len() == 0 {
            self
        } else {
            Progress { table: self.table.push(self.row.drop_last()), row: Seq::empty(), ..self }
        }
    }

    /// Starts a list item: with its number and a dot in an ordered list, else
    /// with a bullet.
    pub open spec fn with_item(self, t: Theme) -> Progress {
        let at = self.flushed();
        if at.counters.len() > 0 && at.counters.last() is Some {
            let n = at.counters.last()->0;
            let numbered = Progress {
                counters: at.counters.drop_last().push(
                    Some(
                        if n == u64::MAX {
                            0
                        } else {
                            (n + 1) as u64
                        },
                    ),
                ),
                ..at
            };
            numbered.with_span(text::decimal(n as nat) + ". "@, style::fg(t.orange))
        } else {
            at.with_span("\u{2022} "@, style::fg(t.orange))
        }
    }

    /// Opens an element.
    pub open spec fn opened(self, tag: events::MdTagView, t: Theme) -> Progress {
        match tag {
            events::MdTagView::CodeBlock(lang) => Progress {
                in_code: true,
                code_buf: Seq::empty(),
                code_lang: match lang {
                    Some(l) => l,
                    None => Seq::empty(),
                },
                ..self.flushed()
            },
            events::MdTagView::Heading(level) => Progress {
                inline: heading_style(level, t),
                ..self.flushed()
            },
            events::MdTagView::Table(aligns) => Progress {
                in_table: true,
                table: Seq::empty(),
                aligns,
                row: Seq::empty(),
                ..self.flushed()
            },
            events::MdTagView::List(start) => Progress {
                counters: self.counters.push(start),
                ..self.flushed()
            },
            events::MdTagView::Item => self.with_item(t),
            events::MdTagView::BlockQuote => Progress {
                quotes: self.quotes + 1,
                ..self.flushed()
            },
            events::MdTagView::Strong => Progress {
                inline: self.inline.plus(Modifier::Bold),
                ..self
            },
            events::MdTagView::Emphasis => Progress {
                inline: self.inline.plus(Modifier::Italic),
                ..self
            },
            events::MdTagView::Strikethrough => Progress {
                inline: self.inline.plus(Modifier::CrossedOut),
                ..self
            },
            events::MdTagView::Link(dest) => Progress {
                inline: style::fg(t.cyan).plus(Modifier::Underlined),
                link: Some(dest),
                ..self
            },
            events::MdTagView::Other => self,
        }
    }

    /// Closes an element.
    pub open spec fn closed(self, tag: MdTagEnd, t: Theme, hl: Highlighter) -> Progress {
        match tag {
            MdTagEnd::CodeBlock => {
                let lines = theme::highlighted(
                    hl.syntaxes,
                    hl.theme,
                    theme::syntax_token(theme::syntax_tokens(hl.syntaxes), self.code_lang),
                    panel::trim_newlines(self.code_buf),
                );
                Progress {
                    out: (self.out + panel::code_panel(
                        self.code_buf,
                        self.code_lang,
                        lines,
                        t,
                    )).push(style::blank()),
                    in_code: false,
                    ..self
                }
            },
            MdTagEnd::Heading => Progress {
                inline: style::plain(),
                ..self.flushed().with_line(style::blank())
            },
            MdTagEnd::TableCell => self.with_cell_closed(),
            MdTagEnd::TableRow => self.with_row_closed(),
            MdTagEnd::Table => Progress {
                out: (self.out + table::table_lines(self.table, self.aligns, t)).push(
                    style::blank(),
                ),
                in_table: false,
                ..self
            },
            MdTagEnd::List => {
                let at = Progress {
                    counters: if self.counters.len() == 0 {
                        self.counters
                    } else {
                        self.counters.drop_last()
                    },
                    ..self
                };
                if at.counters.len() == 0 {
                    at.flushed()
                } else {
                    at
                }
            },
            MdTagEnd::Item => self.flushed(),
            MdTagEnd::BlockQuote => Progress { quotes: self.quotes - 1, ..self.flushed() },
            MdTagEnd::Strong => Progress { inline: self.inline.without(Modifier::Bold), ..self },
            MdTagEnd::Emphasis => Progress {
                inline: self.inline.without(Modifier::Italic),
                ..self
            },
            MdTagEnd::Strikethrough => Progress {
                inline: self.inline.without(Modifier::CrossedOut),
                ..self
            },
            MdTagEnd::Link => {
                let at = match self.link {
                    Some(dest) => self.with_span(" ("@ + dest + ")"@, style::fg(t.dim)),
                    None => self,
                };
                Progress { link: None, inline: style::plain(), ..at }
            },
            MdTagEnd::Other => self,
        }
    }

    /// Takes one event.
    pub open spec fn step(self, event: events::MdEventView, t: Theme, hl: Highlighter) -> Progress {
        match event {
            events::MdEventView::Start(tag) => self.opened(tag, t),
            events::MdEventView::End(tag) => self.closed(tag, t, hl),
            events::MdEventView::Text(s) => if self.in_code {
                Progress { code_buf: self.code_buf + s, ..self }
            } else if self.in_table {
                self.with_cell_text(s)
            } else {
                self.with_text(s, self.inline.with_fg(t.fg), t)
            },
            events::MdEventView::Code(s) => if self.in_table {
                self.with_cell_text(s)
            } else {
                self.quoted(t).with_span(
                    " "@ + s + " "@,
                    style::fg(t.green).with_bg(t.code_bg).plus(Modifier::Bold),
                )
            },
            events::MdEventView::InlineHtml(s) => if self.in_table {
                self.with_cell_text(s)
            } else {
                self.with_text(s, style::fg(t.dim), t)
            },
            events::MdEventView::Html(s) => self.with_text(s, style::fg(t.dim), t),
            events::MdEventView::Break => if self.in_table {
                self
            } else {
                self.flushed().quoted(t)
            },
            events::MdEventView::Rule => self.flushed().with_line(
                style::line_of(text::repeated('\u{2500}', 24), style::fg(t.selection)),
            ),
            events::MdEventView::TaskListMarker(done) => self.with_span(
                if done {
                    "[x] "@
                } else {
                    "[ ] "@
                },
                style::fg(t.orange),
            ),
            events::MdEventView::FootnoteReference(s) => self.with_span(
                "[^"@ + s + "]"@,
                style::fg(t.dim),
            ),
            events::MdEventView::InlineMath(s)
            | events::MdEventView::DisplayMath(s) => self.with_span(
                " $"@ + s + "$ "@,
                style::fg(t.purple),
            ),
        }
    }
}

/// What the renderer has gathered once the first `n` cells of a row came, each
/// with its text. The parser sends no text for an empty cell.
pub open spec fn after_cells(p: Progress, cells: Seq<Seq<char>>, n: int) -> Progress
    decreases n,
{
    if n <= 0 {
        p
    } else {
        let at = after_cells(p, cells, n - 1);
        (if cells[n - 1].len() > 0 {
            at.with_cell_text(cells[n - 1])
        } else {
            at
        }).with_cell_closed()
    }
}

/// A table row holds the texts of its cells, each in its column, empty ones too.
pub proof fn law_row_keeps_columns(p: Progress, cells: Seq<Seq<char>>)
    requires
        p.row.len() == 0,
        cells.len() > 0,
    ensures
        after_cells(p, cells, cells.len() as int).with_row_closed() == (Progress {
            table: p.table.push(cells),
            ..p
        }),
{
    lemma_cells(p, cells, cells.len() as int);
    let end = after_cells(p, cells, cells.len() as int);
    assert(cells.take(cells.len() as int) =~= cells);
    assert(end.row.drop_last() =~= cells);
    assert(end.with_row_closed() =~= (Progress { table: p.table.push(cells), ..p }));
}

proof fn lemma_cells(p: Progress, cells: Seq<Seq<char>>, n: int)
    requires
        p.row.len() == 0,
        0 < n <= cells.len(),
    ensures
        after_cells(p, cells, n) == (Progress { row: cells.take(n).push(Seq::empty()), ..p }),
    decreases n,
{
    let at = after_cells(p, cells, n - 1);
    let cell = cells[n - 1];
    if n > 1 {
        lemma_cells(p, cells, n - 1);
        assert(at.row.drop_last() =~= cells.take(n - 1));
    } else {
        assert(at.row =~= Seq::empty());
    }
    let filled = if cell.len() > 0 {
        at.with_cell_text(cell)
    } else {
        at
    };
    assert(Seq::<char>::empty() + cell =~= cell);
    assert(cell + Seq::<char>::empty() =~= cell);
    assert(cell.len() == 0 ==> cell =~= Seq::<char>::empty());
    assert(filled.with_cell_text(Seq::empty()).row =~= cells.take(n));
    assert(after_cells(p, cells, n) =~= (Progress {
        row: cells.take(n).push(Seq::empty()),
        ..p
    }));
}

/// What the renderer has gathered after `evs`.
pub open spec fn gathered(evs: Seq<events::MdEventView>, t: Theme, hl: Highlighter) -> Progress
    decreases evs.len(),
{
    if evs.len() == 0 {
        start()
    } else {
        gathered(evs.drop_last(), t, hl).step(evs.last(), t, hl)
    }
}

/// The lines of a list of events.
pub open spec fn rendered(evs: Seq<events::MdEventView>, t: Theme, hl: Highlighter) -> Seq<
    style::LineView,
> {
    gathered(evs, t, hl).flushed().out
}

/// The renderer's working state.
struct Renderer {
    out: Vec<Line>,
    spans: Vec<Span>,
    in_code: bool,
    code_lang: String,
    code_buf: String,
    counters: Vec<Option<u64>>,
    quotes: usize,
    inline: Style,
    in_table: bool,
    table: Vec<Vec<String>>,
    aligns: Vec<u8>,
    row: Vec<String>,
    link: Option<String>,
}

impl View for Renderer {
    type V = Progress;

    closed spec fn view(&self) -> Progress {
        Progress {
            out: style::line_views(self.out@),
            spans: style::span_views(self.spans@),
            in_code: self.in_code,
            code_lang: self.code_lang@,
            code_buf: self.code_buf@,
            counters: self.counters@,
            quotes: self.quotes as int,
            inline: self.inline,
            in_table: self.in_table,
            table: table::cell_texts(self.table@),
            aligns: self.aligns@,
            row: text::texts(self.row@),
            link: match self.link {
                Some(dest) => Some(dest@),
                None => None,
            },
        }
    }
}

/// The bars of `n` open block quotes.
fn bars(n: usize) -> (r: String)
    ensures
        r@ == quote_bars(n as int),
{
    let mut out = String::new();
    let mut i: usize = 0;
    while i < n
        invariant
            i <= n,
            out@ == quote_bars(i as int),
        decreases n - i,
    {
        let ghost before = out@;
        out.push('\u{2502}');
        out.push(' ');
        i += 1;
        assert(out@ =~= before + seq!['\u{2502}', ' ']);
    }
    out
}

impl Renderer {
    fn new() -> (r: Renderer)
        ensures
            r@ == start(),
    {
        let r = Renderer {
            out: Vec::new(),
            spans: Vec::new(),
            in_code: false,
            code_lang: String::new(),
            code_buf: String::new(),
            counters: Vec::new(),
            quotes: 0,
            inline: Style::new(),
            in_table: false,
            table: Vec::new(),
            aligns: Vec::new(),
            row: Vec::new(),
            link: None,
        };
        assert(r@ =~= start());
        r
    }

    fn flush_line(&mut self)
        ensures
            final(self)@ == old(self)@.flushed(),
    {
        broadcast use style::line_views_push;

        let mut spans: Vec<Span> = Vec::new();
        core::mem::swap(&mut spans, &mut self.spans);
        self.out.push(Line::from_spans(spans));
        assert(style::span_views(self.spans@) =~= Seq::empty());
    }

    fn push_line(&mut self, l: Line)
        ensures
            final(self)@ == old(self)@.with_line(l@),
    {
        broadcast use style::line_views_push;

        self.out.push(l);
    }

    fn push_span(&mut self, content: String, st: Style)
        ensures
            final(self)@ == old(self)@.with_span(content@, st),
    {
        broadcast use style::span_views_push;

        self.spans.push(Span::styled(content, st));
    }

    fn push_quote(&mut self, t: &Theme)
        ensures
            final(self)@ == old(self)@.quoted(*t),
    {
        if self.quotes > 0 {
            let content = bars(self.quotes);
            self.push_span(content, Style::new().fg(t.green));
        }
    }

    fn push_text(&mut self, content: &str, st: Style, t: &Theme)
        ensures
            final(self)@ == old(self)@.with_text(content@, st, *t),
    {
        let pieces = text::split_on(content, '\n');
        let ghost views = text::split(content@, '\n');
        let ghost begin = self@;
        let mut i: usize = 0;
        assert(views.len() == pieces@.len());
        while i < pieces.len()
            invariant
                i <= pieces@.len(),
                views == text::texts(pieces@),
                self@ == begin.with_pieces(views, i as int, st, *t),
            decreases pieces@.len() - i,
        {
            if i > 0 {
                self.flush_line();
                self.push_quote(t);
            }
            assert(views[i as int] == pieces@[i as int]@);
            if !pieces[i].as_str().is_empty() {
                self.push_span(pieces[i].clone(), st);
            }
            i += 1;
        }
    }

    fn push_cell_text(&mut self, content: &str)
        ensures
            final(self)@ == old(self)@.with_cell_text(content@),
    {
        broadcast use text::texts_push;

        let ghost begin = self@;
        if self.row.len() == 0 {
            self.row.push(String::new());
            assert(text::texts(self.row@) =~= seq![Seq::<char>::empty()]);
        }
        let ghost row = text::texts(self.row@);
        let last = self.row.pop();
        match last {
            Some(mut cell) => {
                cell.append(content);
                assert(text::texts(self.row@) =~= row.drop_last());
                self.row.push(cell);
            },
            None => {},
        }
    }

    fn close_cell(&mut self)
        ensures
            final(self)@ == old(self)@.with_cell_closed(),
    {
        broadcast use text::texts_push;

        self.push_cell_text("");
        proof {
            reveal_strlit("");
            assert(""@ =~= Seq::empty());
        }
        self.row.push(String::new());
    }

    fn close_row(&mut self)
        ensures
            final(self)@ == old(self)@.with_row_closed(),
    {
        let ghost begin = self@;
        if self.row.len() > 0 {
            let mut row: Vec<String> = Vec::new();
            core::mem::swap(&mut row, &mut self.row);
            let _ = row.pop();
            assert(text::texts(row@) =~= begin.row.drop_last());
            assert(text::texts(self.row@) =~= Seq::empty());
            self.table.push(row);
            assert(table::cell_texts(self.table@) =~= begin.table.push(begin.row.drop_last()));
        }
    }

    fn start_item(&mut self, t: &Theme)
        ensures
            final(self)@ == old(self)@.with_item(*t),
    {
        self.flush_line();
        let ghost begin = self@;
        match self.counters.pop() {
            Some(Some(n)) => {
                self.counters.push(Some(n.wrapping_add(1)));
                let number = text::decimal_string(n);
                self.push_span(text::concat(number.as_str(), ". "), Style::new().fg(t.orange));
            },
            Some(None) => {
                self.counters.push(None);
                assert(self.counters@ =~= begin.counters);
                self.push_span(text::owned("\u{2022} "), Style::new().fg(t.orange));
            },
            None => {
                self.push_span(text::owned("\u{2022} "), Style::new().fg(t.orange));
            },
        }
    }

    fn open(&mut self, tag: &MdTag, t: &Theme)
        requires
            tag@ is BlockQuote ==> old(self)@.quotes < usize::MAX,
        ensures
            final(self)@ == old(self)@.opened(tag@, *t),
    {
        match tag {
            MdTag::CodeBlock(lang) => {
                self.flush_line();
                self.in_code = true;
                self.code_buf = String::new();
                self.code_lang = match lang {
                    Some(l) => l.clone(),
                    None => String::new(),
                };
                assert(self@ =~= old(self)@.opened(tag@, *t));
            },
            MdTag::Heading(level) => {
                self.flush_line();
                self.inline = if *level <= 2 {
                    Style::new().fg(t.blue).add_modifier(Modifier::Bold)
                } else {
                    Style::new().fg(t.purple).add_modifier(Modifier::Bold)
                };
            },
            MdTag::Table(aligns) => {
                self.flush_line();
                self.in_table = true;
                self.table = Vec::new();
                self.aligns = aligns.clone();
                self.row = Vec::new();
                assert(self@ =~= old(self)@.opened(tag@, *t));
            },
            MdTag::List(start) => {
                self.flush_line();
                self.counters.push(*start);
            },
            MdTag::Item => {
                self.start_item(t);
            },
            MdTag::BlockQuote => {
                self.flush_line();
                self.quotes = self.quotes + 1;
            },
            MdTag::Strong => {
                self.inline = self.inline.add_modifier(Modifier::Bold);
            },
            MdTag::Emphasis => {
                self.inline = self.inline.add_modifier(Modifier::Italic);
            },
            MdTag::Strikethrough => {
                self.inline = self.inline.add_modifier(Modifier::CrossedOut);
            },
            MdTag::Link(dest) => {
                self.inline = Style::new().fg(t.cyan).add_modifier(Modifier::Underlined);
                self.link = Some(dest.clone());
            },
            MdTag::Other => {},
        }
    }

    fn close(&mut self, tag: MdTagEnd, t: &Theme, hl: &Highlighter)
        requires
            tag is BlockQuote ==> old(self)@.quotes > 0,
            hl.well_formed(),
        ensures
            final(self)@ == old(self)@.closed(tag, *t, *hl),
    {
        broadcast use style::line_views_push;

        match tag {
            MdTagEnd::CodeBlock => {
                let src = panel::without_newlines(self.code_buf.as_str());
                let lines = hl.highlight(self.code_lang.as_str(), src.as_str());
                panel::flush_code_block(
                    &mut self.out,
                    self.code_buf.as_str(),
                    self.code_lang.as_str(),
                    &lines,
                    t,
                );
                self.out.push(Line::blank());
                self.in_code = false;
            },
            MdTagEnd::Heading => {
                self.flush_line();
                self.push_line(Line::blank());
                self.inline = Style::new();
            },
            MdTagEnd::TableCell => {
                self.close_cell();
            },
            MdTagEnd::TableRow => {
                self.close_row();
            },
            MdTagEnd::Table => {
                table::render_table(&mut self.out, &self.table, &self.aligns, t);
                self.out.push(Line::blank());
                self.in_table = false;
            },
            MdTagEnd::List => {
                let ghost before = self.counters@;
                let _ = self.counters.pop();
                assert(before.len() > 0 ==> self.counters@ =~= before.drop_last());
                if self.counters.len() == 0 {
                    self.flush_line();
                }
            },
            MdTagEnd::Item => {
                self.flush_line();
            },
            MdTagEnd::BlockQuote => {
                self.flush_line();
                self.quotes = self.quotes - 1;
            },
            MdTagEnd::Strong => {
                self.inline = self.inline.remove_modifier(Modifier::Bold);
            },
            MdTagEnd::Emphasis => {
                self.inline = self.inline.remove_modifier(Modifier::Italic);
            },
            MdTagEnd::Strikethrough => {
                self.inline = self.inline.remove_modifier(Modifier::CrossedOut);
            },
            MdTagEnd::Link => {
                match self.link.take() {
                    Some(dest) => {
                        self.push_span(
                            text::concat3(" (", dest.as_str(), ")"),
                            Style::new().fg(t.dim),
                        );
                    },
                    None => {},
                }
                self.inline = Style::new();
            },
            MdTagEnd::Other => {},
        }
    }

    fn step(&mut self, event: &MdEvent, t: &Theme, hl: &Highlighter)
        requires
            event@ == events::MdEventView::Start(events::MdTagView::BlockQuote)
                ==> old(self)@.quotes < usize::MAX,
            event@ == events::MdEventView::End(MdTagEnd::BlockQuote) ==> old(self)@.quotes > 0,
            hl.well_formed(),
        ensures
            final(self)@ == old(self)@.step(event@, *t, *hl),
    {
        match event {
            MdEvent::Start(tag) => {
                self.open(tag, t);
            },
            MdEvent::End(tag) => {
                self.close(*tag, t, hl);
            },
            MdEvent::Text(s) => {
                if self.in_code {
                    self.code_buf.append(s.as_str());
                } else if self.in_table {
                    self.push_cell_text(s.as_str());
                } else {
                    let st = self.inline.fg(t.fg);
                    self.push_text(s.as_str(), st, t);
                }
            },
            MdEvent::Code(s) => {
                if self.in_table {
                    self.push_cell_text(s.as_str());
                } else {
                    self.push_quote(t);
                    self.push_span(
                        text::concat3(" ", s.as_str(), " "),
                        Style::new().fg(t.green).bg(t.code_bg).add_modifier(Modifier::Bold),
                    );
                }
            },
            MdEvent::InlineHtml(s) => {
                if self.in_table {
                    self.push_cell_text(s.as_str());
                } else {
                    self.push_text(s.as_str(), Style::new().fg(t.dim), t);
                }
            },
            MdEvent::Html(s) => {
                self.push_text(s.as_str(), Style::new().fg(t.dim), t);
            },
            MdEvent::Break => {
                if !self.in_table {
                    self.flush_line();
                    self.push_quote(t);
                }
            },
            MdEvent::Rule => {
                self.flush_line();
                self.push_line(
                    Line::styled(text::repeat('\u{2500}', 24), Style::new().fg(t.selection)),
                );
            },
            MdEvent::TaskListMarker(done) => {
                let mark = if *done {
                    text::owned("[x] ")
                } else {
                    text::owned("[ ] ")
                };
                self.push_span(mark, Style::new().fg(t.orange));
            },
            MdEvent::FootnoteReference(s) => {
                self.push_span(text::concat3("[^", s.as_str(), "]"), Style::new().fg(t.dim));
            },
            MdEvent::InlineMath(s) | MdEvent::DisplayMath(s) => {
                self.push_span(text::concat3(" $", s.as_str(), "$ "), Style::new().fg(t.purple));
            },
        }
    }
}

/// What a list of events holds.
pub open spec fn event_views(v: Seq<MdEvent>) -> Seq<events::MdEventView> {
    Seq::new(v.len(), |i: int| v[i]@)
}

proof fn lemma_quotes(evs: Seq<events::MdEventView>, t: Theme, hl: Highlighter)
    ensures
        gathered(evs, t, hl).quotes == events::open_quotes(evs),
        events::open_quotes(evs) <= evs.len(),
    decreases evs.len(),
{
    if evs.len() > 0 {
        lemma_quotes(evs.drop_last(), t, hl);
        let before = gathered(evs.drop_last(), t, hl);
        match evs.last() {
            events::MdEventView::Text(s) => {
                lemma_pieces_keep_quotes(
                    before,
                    text::split(s, '\n'),
                    text::split(s, '\n').len() as int,
                    before.inline.with_fg(t.fg),
                    t,
                );
            },
            events::MdEventView::InlineHtml(s) => {
                lemma_pieces_keep_quotes(
                    before,
                    text::split(s, '\n'),
                    text::split(s, '\n').len() as int,
                    style::fg(t.dim),
                    t,
                );
            },
            events::MdEventView::Html(s) => {
                lemma_pieces_keep_quotes(
                    before,
                    text::split(s, '\n'),
                    text::split(s, '\n').len() as int,
                    style::fg(t.dim),
                    t,
                );
            },
            _ => {},
        }
    }
}

proof fn lemma_pieces_keep_quotes(
    p: Progress,
    pieces: Seq<Seq<char>>,
    n: int,
    st: Style,
    t: Theme,
)
    ensures
        p.with_pieces(pieces, n, st, t).quotes == p.quotes,
    decreases n,
{
    if n > 0 {
        lemma_pieces_keep_quotes(p, pieces, n - 1, st, t);
    }
}

/// Renders a list of parser events into styled lines. Block quotes must not
/// close more often than they open.
pub fn render_events(evs: &Vec<MdEvent>, t: &Theme, hl: &Highlighter) -> (r: Vec<MdLine>)
    requires
        events::quotes_balanced(event_views(evs@)),
        hl.well_formed(),
    ensures
        style::line_views(r@) == rendered(event_views(evs@), *t, *hl),
{
    let ghost views = event_views(evs@);
    let mut state = Renderer::new();
    let mut i: usize = 0;
    assert(views.take(0) =~= Seq::empty());
    while i < evs.len()
        invariant
            i <= evs@.len(),
            views == event_views(evs@),
            events::quotes_balanced(views),
            hl.well_formed(),
            state@ == gathered(views.take(i as int), *t, *hl),
        decreases evs@.len() - i,
    {
        proof {
            let before = views.take(i as int);
            let after = views.take(i + 1);
            assert(after.drop_last() =~= before);
            assert(after.last() == evs@[i as int]@);
            lemma_quotes(before, *t, *hl);
            assert(events::open_quotes(after) >= 0);
        }
        state.step(&evs[i], t, hl);
        i += 1;
    }
    assert(views.take(i as int) =~= views);
    state.flush_line();
    state.out
}

/// Renders a markdown text into styled lines.
pub fn render(md: &str, t: &Theme, hl: &Highlighter) -> (r: Vec<MdLine>)
    requires
        hl.well_formed(),
    ensures
        style::line_views(r@) == rendered(events::markdown_events(md@), *t, *hl),
{
    let parsed = parse_events(md);
    let ghost goal = events::markdown_events(md@);
    let mut evs: Vec<MdEvent> = Vec::new();
    assert(event_views(evs@) =~= goal.take(0));
    for event in it: parsed
        invariant
            it.seq() == parsed@,
            goal == Seq::new(parsed@.len(), |i: int| events::event_content(parsed@[i])),
            event_views(evs@) == goal.take(it.index() as int),
    {
        let ghost k = it.index() as int;
        let ghost before = evs@;
        let e = match open_event(event) {
            RawEvent::Start(tag) => MdEvent::Start(open_tag(tag)),
            RawEvent::End(tag) => MdEvent::End(open_end(tag)),
            RawEvent::Other(e) => e,
        };
        assert(e@ == goal[k]);
        evs.push(e);
        assert(event_views(evs@) =~= event_views(before).push(e@));
        assert(goal.take(k + 1) =~= goal.take(k).push(goal[k]));
    }
    assert(goal.take(parsed@.len() as int) =~= goal);
    render_events(&evs, t, hl)
}

/// The texts of some lines.
pub open spec fn line_texts(lines: Seq<style::LineView>) -> Seq<Seq<char>> {
    Seq::new(lines.len(), |i: int| lines[i].text())
}

proof fn lemma_pieces_grow(p: Progress, pieces: Seq<Seq<char>>, n: int, st: Style, t: Theme)
    ensures
        p.out.len() <= p.with_pieces(pieces, n, st, t).out.len(),
        p.out == p.with_pieces(pieces, n, st, t).out.take(p.out.len() as int),
    decreases n,
{
    if n > 0 {
        lemma_pieces_grow(p, pieces, n - 1, st, t);
        let before = p.with_pieces(pieces, n - 1, st, t);
        let after = p.with_pieces(pieces, n, st, t);
        assert(after.out.take(p.out.len() as int) =~= before.out.take(p.out.len() as int));
    } else {
        assert(p.out.take(p.out.len() as int) =~= p.out);
    }
}

proof fn lemma_step_grows(p: Progress, event: events::MdEventView, t: Theme, hl: Highlighter)
    ensures
        p.out.len() <= p.step(event, t, hl).out.len(),
        p.out == p.step(event, t, hl).out.take(p.out.len() as int),
{
    match event {
        events::MdEventView::Text(s) => {
            let pieces = text::split(s, '\n');
            lemma_pieces_grow(p, pieces, pieces.len() as int, p.inline.with_fg(t.fg), t);
        },
        events::MdEventView::InlineHtml(s) | events::MdEventView::Html(s) => {
            let pieces = text::split(s, '\n');
            lemma_pieces_grow(p, pieces, pieces.len() as int, style::fg(t.dim), t);
        },
        _ => {},
    }
    assert(p.out =~= p.step(event, t, hl).out.take(p.out.len() as int));
}

/// What is rendered stays: later events only add lines behind the finished ones.
pub proof fn law_finished_lines_stay(
    evs: Seq<events::MdEventView>,
    i: int,
    t: Theme,
    hl: Highlighter,
)
    requires
        0 <= i <= evs.len(),
    ensures
        gathered(evs.take(i), t, hl).out.is_prefix_of(gathered(evs, t, hl).out),
        gathered(evs, t, hl).out.is_prefix_of(rendered(evs, t, hl)),
    decreases evs.len(),
{
    if i < evs.len() {
        let front = evs.drop_last();
        law_finished_lines_stay(front, i, t, hl);
        lemma_step_grows(gathered(front, t, hl), evs.last(), t, hl);
        assert(front.take(i) =~= evs.take(i));
        let first = gathered(evs.take(i), t, hl).out;
        let mid = gathered(front, t, hl).out;
        let last = gathered(evs, t, hl).out;
        assert(first =~= last.take(first.len() as int));
    } else {
        assert(evs.take(i) =~= evs);
    }
    let all = rendered(evs, t, hl);
    assert(gathered(evs, t, hl).out =~= all.take(gathered(evs, t, hl).out.len() as int));
}

/// A break outside a table ends the line in progress: it becomes one finished
/// line with exactly the spans gathered so far, and the next line begins empty,
/// but for the bars of open quotes. Inside a table a break changes nothing.
pub proof fn law_break_ends_the_line(p: Progress, t: Theme, hl: Highlighter)
    ensures
        p.in_table ==> p.step(events::MdEventView::Break, t, hl) == p,
        !p.in_table ==> {
            let q = p.step(events::MdEventView::Break, t, hl);
            &&& q.out.len() == p.out.len() + 1
            &&& q.out.take(p.out.len() as int) == p.out
            &&& q.out.last().spans == p.spans
            &&& q.out.last().text() == style::spans_text(p.spans)
            &&& p.quotes <= 0 ==> q.spans.len() == 0
            &&& p.quotes > 0 ==> q.spans.len() == 1 && q.spans[0].content == quote_bars(p.quotes)
            &&& q == (Progress { out: q.out, spans: q.spans, ..p })
        },
{
    let q = p.step(events::MdEventView::Break, t, hl);
    if !p.in_table {
        assert(q.out.take(p.out.len() as int) =~= p.out);
    }
}

/// What stands before a break is rendered as if the text ended there, and what
/// follows it begins on a line of its own: no line holds text from both sides.
pub proof fn law_no_line_crosses_a_break(
    evs: Seq<events::MdEventView>,
    i: int,
    t: Theme,
    hl: Highlighter,
)
    requires
        0 <= i < evs.len(),
        evs[i] is Break,
        !gathered(evs.take(i), t, hl).in_table,
    ensures
        rendered(evs.take(i), t, hl).is_prefix_of(rendered(evs, t, hl)),
        rendered(evs, t, hl).len() > rendered(evs.take(i), t, hl).len(),
{
    law_break_ends_the_line(gathered(evs.take(i), t, hl), t, hl);
    assert(evs.take(i + 1).drop_last() =~= evs.take(i));
    law_finished_lines_stay(evs, i + 1, t, hl);
    let head = rendered(evs.take(i), t, hl);
    let mid = gathered(evs.take(i + 1), t, hl).out;
    assert(head =~= mid);
    let all = rendered(evs, t, hl);
    let done = gathered(evs, t, hl).out;
    assert(head =~= all.take(head.len() as int)) by {
        assert(mid =~= done.take(mid.len() as int));
        assert(done =~= all.take(done.len() as int));
    }
}

proof fn lemma_pieces_read(p: Progress, pieces: Seq<Seq<char>>, n: int, st: Style, t: Theme)
    requires
        p.quotes <= 0,
        1 <= n <= pieces.len(),
    ensures
        ({
            let q = p.with_pieces(pieces, n, st, t);
            &&& q == (Progress { out: q.out, spans: q.spans, ..p })
            &&& q.out.len() == p.out.len() + n - 1
            &&& style::spans_text(q.spans) == if n == 1 {
                style::spans_text(p.spans) + pieces[0]
            } else {
                pieces[n - 1]
            }
            &&& forall|k: int|
                0 < k < n - 1 ==> (#[trigger] q.out[p.out.len() + k]).text() == pieces[k]
            &&& n > 1 ==> q.out[p.out.len() as int].text() == style::spans_text(p.spans)
                + pieces[0]
            &&& forall|k: int|
                (if n == 1 { p.spans.len() as int } else { 0 }) <= k < q.spans.len() ==> (
                #[trigger] q.spans[k]).style == st
        }),
    decreases n,
{
    let before = p.with_pieces(pieces, n - 1, st, t);
    let q = p.with_pieces(pieces, n, st, t);
    let own = pieces[n - 1];
    reveal_with_fuel(style::spans_text, 2);
    if n > 1 {
        lemma_pieces_read(p, pieces, n - 1, st, t);
        let at = before.flushed().quoted(t);
        assert(at.spans =~= Seq::empty());
        assert(style::spans_text(at.spans) =~= Seq::empty());
        if own.len() > 0 {
            assert(q.spans.drop_last() =~= at.spans);
            assert(Seq::<char>::empty() + own =~= own);
        } else {
            assert(own =~= Seq::empty());
        }
        assert forall|k: int| 0 < k < n - 1 implies (#[trigger] q.out[p.out.len() + k]).text()
            == pieces[k] by {
            if k < n - 2 {
                assert(q.out[p.out.len() + k] == before.out[p.out.len() + k]);
            }
        }
        if n > 2 {
            assert(q.out[p.out.len() as int] == before.out[p.out.len() as int]);
        }
    } else {
        assert(before == p);
        if own.len() > 0 {
            assert(q.spans.drop_last() =~= p.spans);
        } else {
            assert(own =~= Seq::empty());
            assert(style::spans_text(p.spans) + own =~= style::spans_text(p.spans));
        }
    }
}

/// Text outside of code, tables and quotes goes on behind the line in progress,
/// letter by letter: its first line ends that line, and each further line of it
/// is a line of its own.
pub proof fn law_text_reads_as_it_came(p: Progress, s: Seq<char>, t: Theme, hl: Highlighter)
    requires
        !p.in_code,
        !p.in_table,
        p.quotes <= 0,
    ensures
        ({
            let q = p.step(events::MdEventView::Text(s), t, hl);
            let parts = text::split(s, '\n');
            let n = parts.len() as int;
            &&& q == (Progress { out: q.out, spans: q.spans, ..p })
            &&& q.out.len() == p.out.len() + n - 1
            &&& n == 1 ==> style::spans_text(q.spans) == style::spans_text(p.spans) + s
            &&& n > 1 ==> style::spans_text(q.spans) == parts[n - 1] && q.out[p.out.len() as int].text()
                == style::spans_text(p.spans) + parts[0]
            &&& forall|k: int|
                0 < k < n - 1 ==> (#[trigger] q.out[p.out.len() + k]).text() == parts[k]
            &&& forall|k: int|
                (if n == 1 { p.spans.len() as int } else { 0 }) <= k < q.spans.len() ==> (
                #[trigger] q.spans[k]).style == p.inline.with_fg(t.fg)
        }),
{
    let parts = text::split(s, '\n');
    text::law_split_joins(s, '\n');
    lemma_pieces_read(p, parts, parts.len() as int, p.inline.with_fg(t.fg), t);
    if parts.len() == 1 {
        assert(parts[0] == s);
    }
}

/// A paragraph of two lines renders as two lines that read so.
pub proof fn law_two_lines_stay_two(a: Seq<char>, b: Seq<char>, t: Theme, hl: Highlighter)
    requires
        !a.contains('\n'),
        !b.contains('\n'),
    ensures
        line_texts(
            rendered(
                seq![
                    events::MdEventView::Text(a),
                    events::MdEventView::Break,
                    events::MdEventView::Text(b),
                ],
                t,
                hl,
            ),
        ) == seq![a, b],
{
    let evs = seq![
        events::MdEventView::Text(a),
        events::MdEventView::Break,
        events::MdEventView::Text(b),
    ];
    let none = start();
    let one = none.step(evs[0], t, hl);
    let two = one.step(evs[1], t, hl);
    let three = two.step(evs[2], t, hl);
    reveal_with_fuel(gathered, 4);
    assert(evs.drop_last().drop_last().drop_last() =~= Seq::empty());
    assert(evs.drop_last().drop_last().last() == evs[0]);
    assert(evs.drop_last().last() == evs[1]);
    assert(gathered(evs, t, hl) == three);
    text::law_split_whole(a, '\n');
    text::law_split_whole(b, '\n');
    law_text_reads_as_it_came(none, a, t, hl);
    law_break_ends_the_line(one, t, hl);
    law_text_reads_as_it_came(two, b, t, hl);
    reveal_with_fuel(style::spans_text, 2);
    assert(style::spans_text(none.spans) =~= Seq::empty());
    assert(style::spans_text(two.spans) =~= Seq::empty());
    assert(Seq::<char>::empty() + a =~= a);
    assert(Seq::<char>::empty() + b =~= b);
    assert(one.out =~= Seq::empty());
    assert(three.out =~= two.out) by {
        lemma_step_grows(two, evs[2], t, hl);
    }
    assert(line_texts(rendered(evs, t, hl)) =~= seq![a, b]);
}

/// The bars of a quote read as one bar and one blank per open quote.
pub proof fn law_one_bar_per_quote(n: int)
    requires
        0 <= n,
    ensures
        quote_bars(n).len() == 2 * n,
        forall|i: int|
            0 <= i < 2 * n ==> #[trigger] quote_bars(n)[i] == (if i % 2 == 0 {
                '\u{2502}'
            } else {
                ' '
            }),
    decreases n,
{
    if n > 0 {
        law_one_bar_per_quote(n - 1);
    }
}

/// Inline code keeps its text between two blanks, on the line in progress, in
/// bold green on the background of code.
pub proof fn law_inline_code(p: Progress, s: Seq<char>, t: Theme, hl: Highlighter)
    requires
        !p.in_table,
    ensures
        ({
            let q = p.step(events::MdEventView::Code(s), t, hl);
            &&& q.out == p.out
            &&& q.spans.last().content == seq![' '] + s + seq![' ']
            &&& q.spans.last().style.fg == Some(t.green)
            &&& q.spans.last().style.bg == Some(t.code_bg)
            &&& q.spans.last().style.add_modifier.bold
            &&& p.quotes <= 0 ==> q.spans.drop_last() == p.spans
            &&& q == (Progress { spans: q.spans, ..p })
        }),
{
    reveal_strlit(" ");
    assert(" "@ =~= seq![' ']);
    let q = p.step(events::MdEventView::Code(s), t, hl);
    if p.quotes <= 0 {
        assert(q.spans.drop_last() =~= p.spans);
    }
}

/// Items of an ordered list are numbered from its start on, each one more than
/// the one before; items of other lists have a bullet. Each begins a line.
pub proof fn law_items_count_up(p: Progress, t: Theme, hl: Highlighter)
    ensures
        ({
            let item = events::MdEventView::Start(events::MdTagView::Item);
            let q = p.step(item, t, hl);
            let ordered = p.counters.len() > 0 && p.counters.last() is Some;
            &&& q.out == p.out.push(style::line(p.spans))
            &&& q.spans.len() == 1
            &&& q.spans[0].style.fg == Some(t.orange)
            &&& ordered ==> q.spans[0].content == text::decimal(p.counters.last()->0 as nat)
                + seq!['.', ' ']
            &&& ordered && p.counters.last()->0 < u64::MAX ==> q.counters
                == p.counters.drop_last().push(Some((p.counters.last()->0 + 1) as u64))
            &&& !ordered ==> q.spans[0].content == seq!['\u{2022}', ' '] && q.counters
                == p.counters
        }),
{
    reveal_strlit(". ");
    reveal_strlit("\u{2022} ");
    assert(". "@ =~= seq!['.', ' ']);
    assert("\u{2022} "@ =~= seq!['\u{2022}', ' ']);
}

/// A list inside a list has its own count, and leaves the outer one as it was.
pub proof fn law_lists_nest(p: Progress, first: Option<u64>, t: Theme, hl: Highlighter)
    ensures
        ({
            let inner = p.step(
                events::MdEventView::Start(events::MdTagView::List(first)),
                t,
                hl,
            );
            &&& inner.counters == p.counters.push(first)
            &&& inner.out == p.out.push(style::line(p.spans))
            &&& inner.spans.len() == 0
            &&& inner.step(events::MdEventView::End(MdTagEnd::List), t, hl).counters == p.counters
        }),
{
    let inner = p.step(events::MdEventView::Start(events::MdTagView::List(first)), t, hl);
    assert(inner.counters.drop_last() =~= p.counters);
}

/// A quote deepens by one where it opens and comes back where it closes; both
/// end the line in progress.
pub proof fn law_quotes_nest(p: Progress, t: Theme, hl: Highlighter)
    ensures
        ({
            let inner = p.step(
                events::MdEventView::Start(events::MdTagView::BlockQuote),
                t,
                hl,
            );
            let after = p.step(events::MdEventView::End(MdTagEnd::BlockQuote), t, hl);
            &&& inner.quotes == p.quotes + 1
            &&& after.quotes == p.quotes - 1
            &&& inner.out == p.out.push(style::line(p.spans)) && inner.spans.len() == 0
            &&& after.out == p.out.push(style::line(p.spans)) && after.spans.len() == 0
        }),
{
}

/// A heading stands on lines of its own, in bold, with a blank line behind it;
/// the text after it is plain again.
pub proof fn law_headings_stand_alone(p: Progress, level: u8, t: Theme, hl: Highlighter)
    ensures
        ({
            let inside = p.step(
                events::MdEventView::Start(events::MdTagView::Heading(level)),
                t,
                hl,
            );
            let after = p.step(events::MdEventView::End(MdTagEnd::Heading), t, hl);
            &&& inside.out == p.out.push(style::line(p.spans)) && inside.spans.len() == 0
            &&& inside.inline.add_modifier.bold
            &&& inside.inline.fg == Some(
                if level <= 2 {
                    t.blue
                } else {
                    t.purple
                },
            )
            &&& after.out == p.out.push(style::line(p.spans)).push(style::line(Seq::empty()))
            &&& after.spans.len() == 0
            &&& after.inline == style::plain()
        }),
{
    let after = p.step(events::MdEventView::End(MdTagEnd::Heading), t, hl);
    assert(style::blank() =~= style::line(Seq::empty()));
    assert(after.out =~= p.out.push(style::line(p.spans)).push(style::line(Seq::empty())));
}

/// Strong, emphasised and struck text differ from the text around them in their
/// own attribute alone, and only until they close.
pub proof fn law_emphasis_opens_and_closes(p: Progress, t: Theme, hl: Highlighter)
    ensures
        ({
            let open = |tag: events::MdTagView| p.step(events::MdEventView::Start(tag), t, hl);
            let close = |tag: MdTagEnd| p.step(events::MdEventView::End(tag), t, hl);
            let now = p.inline.add_modifier;
            let strong = open(events::MdTagView::Strong);
            let slanted = open(events::MdTagView::Emphasis);
            let struck = open(events::MdTagView::Strikethrough);
            &&& strong.inline.add_modifier == (style::Modifiers { bold: true, ..now })
            &&& slanted.inline.add_modifier == (style::Modifiers { italic: true, ..now })
            &&& struck.inline.add_modifier == (style::Modifiers { crossed_out: true, ..now })
            &&& strong == (Progress { inline: strong.inline, ..p })
            &&& slanted == (Progress { inline: slanted.inline, ..p })
            &&& struck == (Progress { inline: struck.inline, ..p })
            &&& strong.inline.fg == p.inline.fg && slanted.inline.fg == p.inline.fg
                && struck.inline.fg == p.inline.fg
            &&& close(MdTagEnd::Strong).inline.add_modifier == (style::Modifiers {
                bold: false,
                ..now
            })
            &&& close(MdTagEnd::Emphasis).inline.add_modifier == (style::Modifiers {
                italic: false,
                ..now
            })
            &&& close(MdTagEnd::Strikethrough).inline.add_modifier == (style::Modifiers {
                crossed_out: false,
                ..now
            })
            &&& close(MdTagEnd::Strong).out == p.out && close(MdTagEnd::Strong).spans == p.spans
            &&& close(MdTagEnd::Emphasis).out == p.out && close(MdTagEnd::Emphasis).spans
                == p.spans
            &&& close(MdTagEnd::Strikethrough).out == p.out && close(
                MdTagEnd::Strikethrough,
            ).spans == p.spans
        }),
{
}

/// A link is underlined in cyan, and its address follows in brackets where it
/// closes.
pub proof fn law_links_show_their_address(
    p: Progress,
    dest: Seq<char>,
    t: Theme,
    hl: Highlighter,
)
    ensures
        ({
            let inside = p.step(
                events::MdEventView::Start(events::MdTagView::Link(dest)),
                t,
                hl,
            );
            let end = events::MdEventView::End(MdTagEnd::Link);
            &&& inside.inline.fg == Some(t.cyan) && inside.inline.add_modifier.underlined
            &&& inside.out == p.out && inside.spans == p.spans
            &&& inside.link == Some(dest)
            &&& p.link matches Some(d) ==> p.step(end, t, hl).spans.drop_last() == p.spans
                && p.step(end, t, hl).spans.last().content == seq![' ', '('] + d + seq![')']
            &&& p.link is None ==> p.step(end, t, hl).spans == p.spans
            &&& p.step(end, t, hl).link is None
            &&& p.step(end, t, hl).inline == style::plain()
            &&& p.step(end, t, hl).out == p.out
        }),
{
    reveal_strlit(" (");
    reveal_strlit(")");
    assert(" ("@ =~= seq![' ', '(']);
    assert(")"@ =~= seq![')']);
    let end = events::MdEventView::End(MdTagEnd::Link);
    if p.link is Some {
        assert(p.step(end, t, hl).spans.drop_last() =~= p.spans);
    }
}

/// Inside a code block text is collected letter by letter and nothing of it is
/// rendered yet; the block begins empty, on a new line, with its language.
pub proof fn law_code_collects_verbatim(
    p: Progress,
    lang: Option<Seq<char>>,
    s: Seq<char>,
    t: Theme,
    hl: Highlighter,
)
    ensures
        ({
            let inside = p.step(
                events::MdEventView::Start(events::MdTagView::CodeBlock(lang)),
                t,
                hl,
            );
            &&& inside.in_code && inside.code_buf.len() == 0
            &&& lang matches Some(l) ==> inside.code_lang == l
            &&& lang is None ==> inside.code_lang.len() == 0
            &&& inside.out == p.out.push(style::line(p.spans)) && inside.spans.len() == 0
        }),
        p.in_code ==> p.step(events::MdEventView::Text(s), t, hl) == (Progress {
            code_buf: p.code_buf + s,
            ..p
        }),
        ({
            let after = p.step(events::MdEventView::End(MdTagEnd::CodeBlock), t, hl);
            &&& !after.in_code
            &&& after.spans == p.spans
            &&& after.out.last() == style::line(Seq::empty())
            &&& p.out.is_prefix_of(after.out)
        }),
{
    let after = p.step(events::MdEventView::End(MdTagEnd::CodeBlock), t, hl);
    assert(style::blank() =~= style::line(Seq::empty()));
    assert(p.out =~= after.out.take(p.out.len() as int));
}

/// Markers and formulas stand on the line in progress as they read; a rule is a
/// line of its own behind it.
pub proof fn law_small_marks(p: Progress, s: Seq<char>, done: bool, t: Theme, hl: Highlighter)
    ensures
        ({
            let q = p.step(events::MdEventView::TaskListMarker(done), t, hl);
            &&& q == (Progress { spans: q.spans, ..p })
            &&& q.spans.drop_last() == p.spans
            &&& q.spans.last().content == seq!['[', if done { 'x' } else { ' ' }, ']', ' ']
        }),
        ({
            let q = p.step(events::MdEventView::FootnoteReference(s), t, hl);
            &&& q == (Progress { spans: q.spans, ..p })
            &&& q.spans.drop_last() == p.spans
            &&& q.spans.last().content == seq!['[', '^'] + s + seq![']']
        }),
        ({
            let q = p.step(events::MdEventView::InlineMath(s), t, hl);
            &&& q == (Progress { spans: q.spans, ..p })
            &&& q.spans.drop_last() == p.spans
            &&& q.spans.last().content == seq![' ', '$'] + s + seq!['$', ' ']
            &&& p.step(events::MdEventView::DisplayMath(s), t, hl) == q
        }),
        ({
            let q = p.step(events::MdEventView::Rule, t, hl);
            &&& q.out.len() == p.out.len() + 2
            &&& q.out[p.out.len() as int] == style::line(p.spans)
            &&& q.out.last().text() == Seq::new(24, |i: int| '\u{2500}')
            &&& q.spans.len() == 0
        }),
{
    reveal_strlit("[x] ");
    reveal_strlit("[ ] ");
    reveal_strlit("[^");
    reveal_strlit("]");
    reveal_strlit(" $");
    reveal_strlit("$ ");
    reveal_with_fuel(style::spans_text, 2);
    assert("[x] "@ =~= seq!['[', 'x', ']', ' ']);
    assert("[ ] "@ =~= seq!['[', ' ', ']', ' ']);
    assert("[^"@ =~= seq!['[', '^']);
    assert("]"@ =~= seq![']']);
    assert(" $"@ =~= seq![' ', '$']);
    assert("$ "@ =~= seq!['$', ' ']);
    let a = p.step(events::MdEventView::TaskListMarker(done), t, hl);
    let b = p.step(events::MdEventView::FootnoteReference(s), t, hl);
    let c = p.step(events::MdEventView::InlineMath(s), t, hl);
    let d = p.step(events::MdEventView::Rule, t, hl);
    assert(a.spans.drop_last() =~= p.spans);
    assert(b.spans.drop_last() =~= p.spans);
    assert(c.spans.drop_last() =~= p.spans);
    assert(d.out.last().spans.drop_last() =~= Seq::empty());
    assert(d.out.last().text() =~= Seq::new(24, |i: int| '\u{2500}'));
}

/// Text, code and inline HTML inside a table join the open cell and leave the
/// rendered lines alone; a table begins without rows.
pub proof fn law_cells_collect(
    p: Progress,
    s: Seq<char>,
    aligns: Seq<u8>,
    t: Theme,
    hl: Highlighter,
)
    ensures
        ({
            let q = p.step(
                events::MdEventView::Start(events::MdTagView::Table(aligns)),
                t,
                hl,
            );
            &&& q.in_table && q.table.len() == 0 && q.row.len() == 0 && q.aligns == aligns
            &&& q.out == p.out.push(style::line(p.spans)) && q.spans.len() == 0
        }),
        p.in_table && !p.in_code ==> {
            let q = p.step(events::MdEventView::Text(s), t, hl);
            &&& q == (Progress { row: q.row, ..p })
            &&& p.row.len() > 0 ==> q.row.drop_last() == p.row.drop_last() && q.row.last()
                == p.row.last() + s
            &&& p.row.len() == 0 ==> q.row.len() == 1 && q.row[0] == s
            &&& p.step(events::MdEventView::Code(s), t, hl) == q
            &&& p.step(events::MdEventView::InlineHtml(s), t, hl) == q
        },
        ({
            let q = p.step(events::MdEventView::End(MdTagEnd::Table), t, hl);
            &&& !q.in_table
            &&& q.out == p.out + table::table_lines(p.table, p.aligns, t) + seq![
                style::line(Seq::empty()),
            ]
        }),
{
    let q = p.step(events::MdEventView::Text(s), t, hl);
    if p.in_table && !p.in_code {
        if p.row.len() > 0 {
            assert(q.row.drop_last() =~= p.row.drop_last());
        } else {
            assert(Seq::<char>::empty() + s =~= s);
        }
    }
    let e = p.step(events::MdEventView::End(MdTagEnd::Table), t, hl);
    assert(style::blank() =~= style::line(Seq::empty()));
    assert(e.out =~= p.out + table::table_lines(p.table, p.aligns, t) + seq![
        style::line(Seq::empty()),
    ]);
}

/// Every item ends its line, and so does the outermost list; an inner list leaves
/// the line to its item.
pub proof fn law_items_end_their_lines(p: Progress, t: Theme, hl: Highlighter)
    ensures
        ({
            let item = p.step(events::MdEventView::End(MdTagEnd::Item), t, hl);
            let list = p.step(events::MdEventView::End(MdTagEnd::List), t, hl);
            &&& item.out == p.out.push(style::line(p.spans)) && item.spans.len() == 0
            &&& item.counters == p.counters
            &&& p.counters.len() <= 1 ==> list.out == p.out.push(style::line(p.spans))
                && list.spans.len() == 0 && list.counters.len() == 0
            &&& p.counters.len() > 1 ==> list.out == p.out && list.spans == p.spans
                && list.counters == p.counters.take(p.counters.len() - 1)
        }),
{
    if p.counters.len() > 0 {
        assert(p.counters.drop_last() =~= p.counters.take(p.counters.len() - 1));
    }
}

/// The text of a quote loses no letter: its lines read as they came, each behind
/// the first with the bars of the quote before it.
pub proof fn law_quoted_text_keeps_its_letters(
    p: Progress,
    s: Seq<char>,
    t: Theme,
    hl: Highlighter,
)
    requires
        !p.in_code,
        !p.in_table,
        p.quotes > 0,
    ensures
        ({
            let q = p.step(events::MdEventView::Text(s), t, hl);
            let parts = text::split(s, '\n');
            let n = parts.len() as int;
            &&& q == (Progress { out: q.out, spans: q.spans, ..p })
            &&& q.out.len() == p.out.len() + n - 1
            &&& n == 1 ==> style::spans_text(q.spans) == style::spans_text(p.spans) + s
            &&& n > 1 ==> style::spans_text(q.spans) == quote_bars(p.quotes) + parts[n - 1]
            &&& n > 1 ==> q.out[p.out.len() as int].text() == style::spans_text(p.spans) + parts[0]
            &&& forall|k: int|
                0 < k < n - 1 ==> (#[trigger] q.out[p.out.len() + k]).text() == quote_bars(p.quotes)
                    + parts[k]
        }),
{
    let parts = text::split(s, '\n');
    text::law_split_joins(s, '\n');
    lemma_quoted_pieces(p, parts, parts.len() as int, p.inline.with_fg(t.fg), t);
    if parts.len() == 1 {
        assert(parts[0] == s);
    }
}

proof fn lemma_quoted_pieces(p: Progress, pieces: Seq<Seq<char>>, n: int, st: Style, t: Theme)
    requires
        p.quotes > 0,
        1 <= n <= pieces.len(),
    ensures
        ({
            let q = p.with_pieces(pieces, n, st, t);
            &&& q == (Progress { out: q.out, spans: q.spans, ..p })
            &&& q.out.len() == p.out.len() + n - 1
            &&& style::spans_text(q.spans) == if n == 1 {
                style::spans_text(p.spans) + pieces[0]
            } else {
                quote_bars(p.quotes) + pieces[n - 1]
            }
            &&& forall|k: int|
                0 < k < n - 1 ==> (#[trigger] q.out[p.out.len() + k]).text() == quote_bars(p.quotes)
                    + pieces[k]
            &&& n > 1 ==> q.out[p.out.len() as int].text() == style::spans_text(p.spans)
                + pieces[0]
        }),
    decreases n,
{
    let before = p.with_pieces(pieces, n - 1, st, t);
    let q = p.with_pieces(pieces, n, st, t);
    let own = pieces[n - 1];
    reveal_with_fuel(style::spans_text, 3);
    if n > 1 {
        lemma_quoted_pieces(p, pieces, n - 1, st, t);
        let at = before.flushed().quoted(t);
        let bars = quote_bars(p.quotes);
        assert(at.spans.len() == 1);
        assert(at.spans.drop_last() =~= Seq::empty());
        assert(style::spans_text(at.spans) =~= bars);
        if own.len() > 0 {
            assert(q.spans.drop_last() =~= at.spans);
        } else {
            assert(own =~= Seq::empty());
            assert(bars + own =~= bars);
        }
        assert forall|k: int| 0 < k < n - 1 implies (#[trigger] q.out[p.out.len() + k]).text()
            == quote_bars(p.quotes) + pieces[k] by {
            if k < n - 2 {
                assert(q.out[p.out.len() + k] == before.out[p.out.len() + k]);
            }
        }
        if n > 2 {
            assert(q.out[p.out.len() as int] == before.out[p.out.len() as int]);
        }
    } else {
        assert(before == p);
        if own.len() > 0 {
            assert(q.spans.drop_last() =~= p.spans);
        } else {
            assert(own =~= Seq::empty());
            assert(style::spans_text(p.spans) + own =~= style::spans_text(p.spans));
        }
    }
}

/// Nothing is rendered of no events but one empty line, and the line in progress
/// is never lost: it is the last line of what is rendered.
pub proof fn law_last_line_is_rendered(
    evs: Seq<events::MdEventView>,
    t: Theme,
    hl: Highlighter,
)
    ensures
        rendered(evs, t, hl).len() == gathered(evs, t, hl).out.len() + 1,
        rendered(evs, t, hl).last().text() == style::spans_text(gathered(evs, t, hl).spans),
        evs.len() == 0 ==> line_texts(rendered(evs, t, hl)) == seq![Seq::<char>::empty()],
{
    if evs.len() == 0 {
        assert(line_texts(rendered(evs, t, hl)) =~= seq![Seq::<char>::empty()]);
    }
}

/// HTML shows as it reads, dim; in a table a piece of it joins its cell.
pub proof fn law_html_shows_as_text(p: Progress, s: Seq<char>, t: Theme, hl: Highlighter)
    requires
        !s.contains('\n'),
        s.len() > 0,
    ensures
        ({
            let q = p.step(events::MdEventView::Html(s), t, hl);
            &&& q == (Progress { spans: q.spans, ..p })
            &&& q.spans.drop_last() == p.spans
            &&& q.spans.last().content == s && q.spans.last().style.fg == Some(t.dim)
            &&& !p.in_table ==> p.step(events::MdEventView::InlineHtml(s), t, hl) == q
        }),
{
    text::law_split_whole(s, '\n');
    let q = p.step(events::MdEventView::Html(s), t, hl);
    reveal_with_fuel(Progress::with_pieces, 2);
    assert(q.spans.drop_last() =~= p.spans);
}

/// Two texts with a break between them render as two lines.
pub proof fn law_break_renders_two_lines(
    evs: &Vec<MdEvent>,
    t: &Theme,
    hl: &Highlighter,
    r: Vec<MdLine>,
    a: Seq<char>,
    b: Seq<char>,
)
    requires
        call_ensures(render_events, (evs, t, hl), r),
        event_views(evs@) == seq![
            events::MdEventView::Text(a),
            events::MdEventView::Break,
            events::MdEventView::Text(b),
        ],
        !a.contains('\n'),
        !b.contains('\n'),
    ensures
        r@.len() == 2,
        r@[0]@.text() == a,
        r@[1]@.text() == b,
{
    law_two_lines_stay_two(a, b, *t, *hl);
    let views = style::line_views(r@);
    let texts = line_texts(rendered(event_views(evs@), *t, *hl));
    assert(texts.len() == 2);
    assert(texts[0] == views[0].text());
    assert(texts[1] == views[1].text());
    assert(views[0] == r@[0]@);
    assert(views[1] == r@[1]@);
}

/// A markdown text renders as the events that its parser gives, none left out.
pub proof fn law_render_shows_every_event(md: &str, t: &Theme, hl: &Highlighter, r: Vec<MdLine>)
    requires
        call_ensures(render, (md, t, hl), r),
    ensures
        style::line_views(r@) == rendered(events::markdown_events(md@), *t, *hl),
        r@.len() >= 1,
{
    assert(style::line_views(r@).len() == r@.len());
}

/// A code block ends with its panel and a blank line: the panel holds the code
/// that was collected, without the line feeds behind it, under its language.
pub proof fn law_code_block_shows_its_panel(p: Progress, t: Theme, hl: Highlighter)
    ensures
        ({
            let after = p.step(events::MdEventView::End(MdTagEnd::CodeBlock), t, hl);
            let lines = theme::highlighted(
                hl.syntaxes,
                hl.theme,
                theme::syntax_token(theme::syntax_tokens(hl.syntaxes), p.code_lang),
                panel::trim_newlines(p.code_buf),
            );
            let shown = panel::code_panel(p.code_buf, p.code_lang, lines, t);
            &&& after.out == p.out + shown + seq![style::line(Seq::empty())]
            &&& after.spans == p.spans && after.quotes == p.quotes && after.counters == p.counters
        }),
{
    let after = p.step(events::MdEventView::End(MdTagEnd::CodeBlock), t, hl);
    let lines = theme::highlighted(
        hl.syntaxes,
        hl.theme,
        theme::syntax_token(theme::syntax_tokens(hl.syntaxes), p.code_lang),
        panel::trim_newlines(p.code_buf),
    );
    let shown = panel::code_panel(p.code_buf, p.code_lang, lines, t);
    assert(style::blank() =~= style::line(Seq::empty()));
    assert(after.out =~= p.out + shown + seq![style::line(Seq::empty())]);
}

/// Tags that have no look of their own change nothing.
pub proof fn law_other_tags_change_nothing(p: Progress, t: Theme, hl: Highlighter)
    ensures
        p.step(events::MdEventView::Start(events::MdTagView::Other), t, hl) == p,
        p.step(events::MdEventView::End(MdTagEnd::Other), t, hl) == p,
        start().out.len() == 0 && start().spans.len() == 0 && !start().in_code
            && !start().in_table && start().quotes == 0 && start().inline == style::plain(),
{
}

} // verus!
