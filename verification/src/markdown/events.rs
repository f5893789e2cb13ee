//! The events of the markdown parser, as plain values.

use vstd::prelude::*;
use pulldown_cmark::{CodeBlockKind, Event, Options, Parser, Tag, TagEnd};

verus! {

/// An event of the `pulldown_cmark` parser.
#[verifier::external_type_specification]
#[verifier::external_body]
pub struct ExEvent<'a>(Event<'a>);

/// The tag that opens an element.
#[verifier::external_type_specification]
#[verifier::external_body]
pub struct ExTag<'a>(Tag<'a>);

/// The tag that closes an element.
#[verifier::external_type_specification]
#[verifier::external_body]
pub struct ExTagEnd(TagEnd);

/// The opening of an element. A heading carries its level from one to six, a
/// table one number per column: two for a centred one, three for a right
/// aligned one.
#[derive(Debug)]
pub enum MdTag {
    CodeBlock(Option<String>),
    Heading(u8),
    Table(Vec<u8>),
    List(Option<u64>),
    Item,
    BlockQuote,
    Strong,
    Emphasis,
    Strikethrough,
    Link(String),
    Other,
}

/// What an [`MdTag`] holds.
#[verifier::ext_equal]
pub enum MdTagView {
    CodeBlock(Option<Seq<char>>),
    Heading(u8),
    Table(Seq<u8>),
    List(Option<u64>),
    Item,
    BlockQuote,
    Strong,
    Emphasis,
    Strikethrough,
    Link(Seq<char>),
    Other,
}

impl View for MdTag {
    type V = MdTagView;

    open spec fn view(&self) -> MdTagView {
        match self {
            MdTag::CodeBlock(Some(lang)) => MdTagView::CodeBlock(Some(lang@)),
            MdTag::CodeBlock(None) => MdTagView::CodeBlock(None),
            MdTag::Heading(level) => MdTagView::Heading(*level),
            MdTag::Table(aligns) => MdTagView::Table(aligns@),
            MdTag::List(start) => MdTagView::List(*start),
            MdTag::Item => MdTagView::Item,
            MdTag::BlockQuote => MdTagView::BlockQuote,
            MdTag::Strong => MdTagView::Strong,
            MdTag::Emphasis => MdTagView::Emphasis,
            MdTag::Strikethrough => MdTagView::Strikethrough,
            MdTag::Link(dest) => MdTagView::Link(dest@),
            MdTag::Other => MdTagView::Other,
        }
    }
}

/// The closing of an element.
#[derive(Clone, Copy, Debug, PartialEq, Eq, Structural)]
pub enum MdTagEnd {
    CodeBlock,
    Heading,
    TableCell,
    /// A row of a table, its head included.
    TableRow,
    Table,
    List,
    Item,
    BlockQuote,
    Strong,
    Emphasis,
    Strikethrough,
    Link,
    Other,
}

/// One event of the markdown parser.
#[derive(Debug)]
pub enum MdEvent {
    Start(MdTag),
    End(MdTagEnd),
    Text(String),
    Code(String),
    InlineMath(String),
    DisplayMath(String),
    Html(String),
    InlineHtml(String),
    FootnoteReference(String),
    /// A soft or hard line break.
    Break,
    Rule,
    TaskListMarker(bool),
}

/// What an [`MdEvent`] holds.
#[verifier::ext_equal]
pub enum MdEventView {
    Start(MdTagView),
    End(MdTagEnd),
    Text(Seq<char>),
    Code(Seq<char>),
    InlineMath(Seq<char>),
    DisplayMath(Seq<char>),
    Html(Seq<char>),
    InlineHtml(Seq<char>),
    FootnoteReference(Seq<char>),
    Break,
    Rule,
    TaskListMarker(bool),
}

impl View for MdEvent {
    type V = MdEventView;

    open spec fn view(&self) -> MdEventView {
        match self {
            MdEvent::Start(tag) => MdEventView::Start(tag@),
            MdEvent::End(tag) => MdEventView::End(*tag),
            MdEvent::Text(t) => MdEventView::Text(t@),
            MdEvent::Code(t) => MdEventView::Code(t@),
            MdEvent::InlineMath(t) => MdEventView::InlineMath(t@),
            MdEvent::DisplayMath(t) => MdEventView::DisplayMath(t@),
            MdEvent::Html(t) => MdEventView::Html(t@),
            MdEvent::InlineHtml(t) => MdEventView::InlineHtml(t@),
            MdEvent::FootnoteReference(t) => MdEventView::FootnoteReference(t@),
            MdEvent::Break => MdEventView::Break,
            MdEvent::Rule => MdEventView::Rule,
            MdEvent::TaskListMarker(done) => MdEventView::TaskListMarker(*done),
        }
    }
}

/// A parser event whose tags are still the parser's own.
pub enum RawEvent<'a> {
    Start(Tag<'a>),
    End(TagEnd),
    Other(MdEvent),
}

/// What a parser tag says.
pub uninterp spec fn tag_content(tag: Tag) -> MdTagView;

/// What a parser end tag says.
pub uninterp spec fn end_content(tag: TagEnd) -> MdTagEnd;

/// What a parser event says.
pub uninterp spec fn event_content(event: Event) -> MdEventView;

/// A name for the events of `Parser::new_ext` on a text, with tables,
/// strikethrough and task lists enabled.
pub uninterp spec fn markdown_events(md: Seq<char>) -> Seq<MdEventView>;

/// How many block quotes are open after `events`.
pub open spec fn open_quotes(events: Seq<MdEventView>) -> int
    decreases events.len(),
{
    if events.len() == 0 {
        0
    } else {
        open_quotes(events.drop_last()) + match events.last() {
            MdEventView::Start(MdTagView::BlockQuote) => 1int,
            MdEventView::End(MdTagEnd::BlockQuote) => -1int,
            _ => 0int,
        }
    }
}

/// Whether no block quote closes that was not opened.
pub open spec fn quotes_balanced(events: Seq<MdEventView>) -> bool {
    forall|i: int| 0 <= i <= events.len() ==> #[trigger] open_quotes(events.take(i)) >= 0
}

/// `Parser::new_ext` with tables, strikethrough and task lists enabled: the
/// events of a markdown text. The parser guarantees that starts and ends are balanced.
#[verifier::external_body]
pub(crate) fn parse_events(md: &str) -> (r: Vec<Event<'_>>)
    ensures
        Seq::new(r@.len(), |i: int| event_content(r@[i])) == markdown_events(md@),
        quotes_balanced(Seq::new(r@.len(), |i: int| event_content(r@[i]))),
{
    let enabled = Options::ENABLE_STRIKETHROUGH | Options::ENABLE_TABLES
        | Options::ENABLE_TASKLISTS;
    Parser::new_ext(md, enabled).collect()
}

/// Takes a parser event apart.
#[verifier::external_body]
pub(crate) fn open_event(event: Event<'_>) -> (r: RawEvent<'_>)
    ensures
        match r {
            RawEvent::Start(tag) => event_content(event) == MdEventView::Start(tag_content(tag)),
            RawEvent::End(tag) => event_content(event) == MdEventView::End(end_content(tag)),
            RawEvent::Other(e) => event_content(event) == e@ && !(e@ is Start) && !(e@ is End),
        },
{
    RawEvent::Other(match event {
        Event::Start(tag) => return RawEvent::Start(tag),
        Event::End(tag) => return RawEvent::End(tag),
        Event::Text(t) => MdEvent::Text(t.to_string()),
        Event::Code(t) => MdEvent::Code(t.to_string()),
        Event::InlineMath(t) => MdEvent::InlineMath(t.to_string()),
        Event::DisplayMath(t) => MdEvent::DisplayMath(t.to_string()),
        Event::Html(t) => MdEvent::Html(t.to_string()),
        Event::InlineHtml(t) => MdEvent::InlineHtml(t.to_string()),
        Event::FootnoteReference(t) => MdEvent::FootnoteReference(t.to_string()),
        Event::SoftBreak | Event::HardBreak => MdEvent::Break,
        Event::Rule => MdEvent::Rule,
        Event::TaskListMarker(done) => MdEvent::TaskListMarker(done),
    })
}

/// Takes an opening tag of the parser apart.
#[verifier::external_body]
pub(crate) fn open_tag(tag: Tag<'_>) -> (r: MdTag)
    ensures
        r@ == tag_content(tag),
{
    match tag {
        Tag::CodeBlock(CodeBlockKind::Fenced(lang)) => MdTag::CodeBlock(Some(lang.to_string())),
        Tag::CodeBlock(CodeBlockKind::Indented) => MdTag::CodeBlock(None),
        Tag::Heading { level, .. } => MdTag::Heading(level as u8),
        Tag::Table(columns) => MdTag::Table(columns.into_iter().map(|a| a as u8).collect()),
        Tag::List(start) => MdTag::List(start),
        Tag::Item => MdTag::Item,
        Tag::BlockQuote(_) => MdTag::BlockQuote,
        Tag::Strong => MdTag::Strong,
        Tag::Emphasis => MdTag::Emphasis,
        Tag::Strikethrough => MdTag::Strikethrough,
        Tag::Link { dest_url, .. } => MdTag::Link(dest_url.to_string()),
        _ => MdTag::Other,
    }
}

/// Takes a closing tag of the parser apart.
#[verifier::external_body]
pub(crate) fn open_end(tag: TagEnd) -> (r: MdTagEnd)
    ensures
        r == end_content(tag),
{
    match tag {
        TagEnd::CodeBlock => MdTagEnd::CodeBlock,
        TagEnd::Heading(_) => MdTagEnd::Heading,
        TagEnd::TableCell => MdTagEnd::TableCell,
        TagEnd::TableHead | TagEnd::TableRow => MdTagEnd::TableRow,
        TagEnd::Table => MdTagEnd::Table,
        TagEnd::List(_) => MdTagEnd::List,
        TagEnd::Item => MdTagEnd::Item,
        TagEnd::BlockQuote(_) => MdTagEnd::BlockQuote,
        TagEnd::Strong => MdTagEnd::Strong,
        TagEnd::Emphasis => MdTagEnd::Emphasis,
        TagEnd::Strikethrough => MdTagEnd::Strikethrough,
        TagEnd::Link => MdTagEnd::Link,
        _ => MdTagEnd::Other,
    }
}

} // verus!
