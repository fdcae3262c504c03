//! From markdown text to a document tree: `pulldown_cmark` reads the text
//! into events, and the builder reads the events into nodes.

use crate::builder::{build, outline, renders_all, Document};
use crate::event::{CodeBlockKind, Event, Tag, TagEnd};
use crate::syntax::Catalog;
use crate::token::{tokens_view, InnerHeadingLevel};
use pulldown_cmark::CodeBlockKind as MdCodeBlockKind;
use pulldown_cmark::Event as MdEvent;
use pulldown_cmark::HeadingLevel;
use pulldown_cmark::Tag as MdTag;
use pulldown_cmark::TagEnd as MdTagEnd;
use pulldown_cmark::{Options, Parser};
use vstd::prelude::*;

verus! {

/// `pulldown_cmark::Event`: nothing is known of it.
#[verifier::external_type_specification]
#[verifier::external_body]
pub struct ExMdEvent<'a>(MdEvent<'a>);

/// `pulldown_cmark::Tag`: nothing is known of it.
#[verifier::external_type_specification]
#[verifier::external_body]
pub struct ExMdTag<'a>(MdTag<'a>);

/// `pulldown_cmark::TagEnd`: nothing is known of it.
#[verifier::external_type_specification]
#[verifier::external_body]
pub struct ExMdTagEnd(MdTagEnd);

/// The parts of an event of `pulldown_cmark`.
enum Shape<'e, 'a> {
    Start(&'e MdTag<'a>),
    End(MdTagEnd),
    Text(String),
    Code(String),
    Other,
}

/// The events of a markdown text: those that `pulldown_cmark` reads off it
/// with tables switched on, each as the library's event for it.
pub uninterp spec fn lexed(input: Seq<char>) -> Seq<Event>;

/// `Parser::new_ext` with tables switched on, read to its end, each event
/// turned into the library's event for it. Trusted: what comes of a text
/// depends on the text alone, and is what `lexed` names.
#[verifier::external_body]
fn lex(input: &str) -> (events: Vec<Event>)
    ensures
        events@ == lexed(input@),
{
    Parser::new_ext(input, Options::ENABLE_TABLES).map(|event| event_of(&event)).collect()
}

/// Tells the variants of `pulldown_cmark::Event` apart. Nothing is claimed of
/// the result.
#[verifier::external_body]
fn shape<'e, 'a>(event: &'e MdEvent<'a>) -> Shape<'e, 'a> {
    match event {
        MdEvent::Start(tag) => Shape::Start(tag),
        MdEvent::End(end) => Shape::End(*end),
        MdEvent::Text(text) => Shape::Text(text.to_string()),
        MdEvent::Code(code) => Shape::Code(code.to_string()),
        _ => Shape::Other,
    }
}

/// The number of the level of a `pulldown_cmark::Tag::Heading`, and `None`
/// for any other tag. Trusted: headings have the levels 1 to 6.
#[verifier::external_body]
fn heading_level(tag: &MdTag) -> (level: Option<u8>)
    ensures
        level matches Some(number) ==> 1 <= number <= 6,
{
    match tag {
        MdTag::Heading { level: HeadingLevel::H1, .. } => Some(1),
        MdTag::Heading { level: HeadingLevel::H2, .. } => Some(2),
        MdTag::Heading { level: HeadingLevel::H3, .. } => Some(3),
        MdTag::Heading { level: HeadingLevel::H4, .. } => Some(4),
        MdTag::Heading { level: HeadingLevel::H5, .. } => Some(5),
        MdTag::Heading { level: HeadingLevel::H6, .. } => Some(6),
        _ => None,
    }
}

/// Tells the variants of `pulldown_cmark::Tag` apart, all but `Heading`, and
/// keeps a link's or an image's destination and a fence's language. Nothing is
/// claimed of the result.
#[verifier::external_body]
fn tag_of(tag: &MdTag) -> Tag {
    match tag {
        MdTag::Paragraph => Tag::Paragraph,
        MdTag::CodeBlock(MdCodeBlockKind::Indented) => Tag::CodeBlock(CodeBlockKind::Indented),
        MdTag::CodeBlock(MdCodeBlockKind::Fenced(l)) => Tag::CodeBlock(CodeBlockKind::Fenced(l.to_string())),
        MdTag::List(_) => Tag::List,
        MdTag::Item => Tag::Item,
        MdTag::Table(_) => Tag::Table,
        MdTag::TableHead => Tag::TableHead,
        MdTag::TableRow => Tag::TableRow,
        MdTag::TableCell => Tag::TableCell,
        MdTag::Link { dest_url, .. } => Tag::Link { dest_url: dest_url.to_string() },
        MdTag::Image { dest_url, .. } => Tag::Image { dest_url: dest_url.to_string() },
        _ => Tag::Other,
    }
}

/// Tells the variants of `pulldown_cmark::TagEnd` apart. Nothing is claimed of
/// the result.
#[verifier::external_body]
fn end_of(end: MdTagEnd) -> TagEnd {
    match end {
        MdTagEnd::Paragraph => TagEnd::Paragraph,
        MdTagEnd::Heading(_) => TagEnd::Heading,
        MdTagEnd::CodeBlock => TagEnd::CodeBlock,
        MdTagEnd::List(_) => TagEnd::List,
        MdTagEnd::Item => TagEnd::Item,
        MdTagEnd::Table => TagEnd::Table,
        MdTagEnd::TableHead => TagEnd::TableHead,
        MdTagEnd::TableRow => TagEnd::TableRow,
        MdTagEnd::TableCell => TagEnd::TableCell,
        MdTagEnd::Link => TagEnd::Link,
        MdTagEnd::Image => TagEnd::Image,
        _ => TagEnd::Other,
    }
}

/// The tag of a start event, from what was read off the event: the number of
/// its heading level, if it starts a heading, and its tag as any other
/// element.
///
/// A number from 1 to 6 gives a heading of that level. Any other number is
/// no level, and the event counts as one that starts some other element.
/// Without a number the tag is the one that was read.
fn start_tag(level: Option<u8>, plain: Tag) -> (tag: Tag)
    ensures
        level matches Some(number) ==> (if 1 <= number <= 6 {
            tag matches Tag::Heading(made) && made@ == number
        } else {
            tag == Tag::Other
        }),
        level is None ==> tag == plain,
{
    match level {
        Some(number) => match InnerHeadingLevel::new(number) {
            Some(made) => Tag::Heading(made),
            None => Tag::Other,
        },
        None => plain,
    }
}

/// The library's event for an event of the lexer: text and code spans keep
/// their text, a start or an end event keeps what it starts or ends as far
/// as the builder tells elements apart, and any other event is `Other`.
fn event_of(raw: &MdEvent) -> Event {
    match shape(raw) {
        Shape::Start(tag) => Event::Start(start_tag(heading_level(tag), tag_of(tag))),
        Shape::End(end) => Event::End(end_of(end)),
        Shape::Text(text) => Event::Text(text),
        Shape::Code(code) => Event::Code(code),
        Shape::Other => Event::Other,
    }
}

/// Reads a markdown text into its document tree.
///
/// The text is read into events, with tables switched on, and the events are
/// built into nodes: the result is what `build` gives for the events of the
/// text.
pub fn parse(input: &str, catalog: &Catalog) -> (document: Document)
    ensures
        renders_all(catalog, outline(lexed(input@), 0).blocks, tokens_view(document.tokens@)),
        document.dropped_cells == outline(lexed(input@), 0).dropped,
{
    let events = lex(input);
    build(events.as_slice(), catalog)
}

} // verus!
