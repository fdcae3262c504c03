//! The events that a markdown lexer hands to the tree builder.

use crate::token::InnerHeadingLevel;
use vstd::prelude::*;

verus! {

/// How a code block was written.
#[derive(Debug, PartialEq)]
pub enum CodeBlockKind {
    /// Indented: it names no language.
    Indented,
    /// Fenced, with the language tag of its fence.
    Fenced(String),
}

/// What a start event opens.
#[derive(Debug, PartialEq)]
pub enum Tag {
    Paragraph,
    Heading(InnerHeadingLevel),
    CodeBlock(CodeBlockKind),
    List,
    Item,
    Table,
    TableHead,
    TableRow,
    TableCell,
    Link { dest_url: String },
    Image { dest_url: String },
    /// Any other element: the builder looks through it.
    Other,
}

/// What an end event closes.
#[derive(Debug, Clone, Copy, PartialEq, Eq, Structural)]
pub enum TagEnd {
    Paragraph,
    Heading,
    CodeBlock,
    List,
    Item,
    Table,
    TableHead,
    TableRow,
    TableCell,
    Link,
    Image,
    Other,
}

/// One event of the stream.
#[derive(Debug, PartialEq)]
pub enum Event {
    Start(Tag),
    End(TagEnd),
    /// A run of text.
    Text(String),
    /// An inline code span.
    Code(String),
    /// Any other event: the builder passes over it.
    Other,
}

impl Tag {
    /// The end event's tag that closes this one.
    pub open spec fn end(self) -> TagEnd {
        match self {
            Tag::Paragraph => TagEnd::Paragraph,
            Tag::Heading(_) => TagEnd::Heading,
            Tag::CodeBlock(_) => TagEnd::CodeBlock,
            Tag::List => TagEnd::List,
            Tag::Item => TagEnd::Item,
            Tag::Table => TagEnd::Table,
            Tag::TableHead => TagEnd::TableHead,
            Tag::TableRow => TagEnd::TableRow,
            Tag::TableCell => TagEnd::TableCell,
            Tag::Link { .. } => TagEnd::Link,
            Tag::Image { .. } => TagEnd::Image,
            Tag::Other => TagEnd::Other,
        }
    }
}

} // verus!
