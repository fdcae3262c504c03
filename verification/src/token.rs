//! The nodes of a document tree.

use crate::syntax::{lines_view, texts, CodeLine, CodeTokenView};
use vstd::prelude::*;
use vstd::std_specs::convert::FromSpecImpl;

verus! {

/// A heading's level, from 1 to 6.
#[derive(Debug, Clone, Copy, PartialEq, Eq)]
pub struct InnerHeadingLevel(u8);

impl View for InnerHeadingLevel {
    type V = u8;

    closed spec fn view(&self) -> u8 {
        self.0
    }
}

impl InnerHeadingLevel {
    #[verifier::type_invariant]
    spec fn in_range(self) -> bool {
        1 <= self.0 <= 6
    }

    /// The level with this number, if there is one: the levels are 1 to 6.
    pub fn new(level: u8) -> (made: Option<InnerHeadingLevel>)
        ensures
            made is Some <==> 1 <= level <= 6,
            made matches Some(l) ==> l@ == level,
    {
        if 1 <= level && level <= 6 {
            Some(InnerHeadingLevel(level))
        } else {
            None
        }
    }

    /// The level's number.
    pub fn get(&self) -> (level: u8)
        ensures
            level == self@,
            1 <= level <= 6,
    {
        proof {
            use_type_invariant(self);
        }
        self.0
    }
}

impl From<InnerHeadingLevel> for u8 {
    /// The level's number.
    fn from(value: InnerHeadingLevel) -> (level: u8) {
        value.get()
    }
}

impl FromSpecImpl<InnerHeadingLevel> for u8 {
    open spec fn obeys_from_spec() -> bool {
        true
    }

    open spec fn from_spec(value: InnerHeadingLevel) -> u8 {
        value@
    }
}

/// A node of a document tree.
#[derive(Debug, PartialEq)]
#[allow(inconsistent_fields)]
pub enum Token {
    Text(String),
    Paragraph { parts: Vec<Token> },
    Table { headings: Vec<String>, cols: Vec<Vec<String>> },
    Image { uri: String, text: String },
    Heading { level: InnerHeadingLevel, content: String },
    List { items: Vec<Token> },
    Link { uri: String, label: String },
    CodeBlock { content: Vec<CodeLine>, language: String },
    Code(String),
    ListItem { parts: Vec<Token> },
}

/// What a `Token` stands for.
#[allow(inconsistent_fields)]
pub enum TokenView {
    Text(Seq<char>),
    Paragraph { parts: Seq<TokenView> },
    Table { headings: Seq<Seq<char>>, cols: Seq<Seq<Seq<char>>> },
    Image { uri: Seq<char>, text: Seq<char> },
    Heading { level: u8, content: Seq<char> },
    List { items: Seq<TokenView> },
    Link { uri: Seq<char>, label: Seq<char> },
    CodeBlock { content: Seq<Seq<CodeTokenView>>, language: Seq<char> },
    Code(Seq<char>),
    ListItem { parts: Seq<TokenView> },
}

/// What a node stands for.
pub open spec fn token_view(token: Token) -> TokenView
    decreases token,
{
    match token {
        Token::Text(text) => TokenView::Text(text@),
        Token::Paragraph { parts } => TokenView::Paragraph { parts: children_view(parts@) },
        Token::Table { headings, cols } => TokenView::Table {
            headings: texts(headings@),
            cols: columns_view(cols@),
        },
        Token::Image { uri, text } => TokenView::Image { uri: uri@, text: text@ },
        Token::Heading { level, content } => TokenView::Heading { level: level@, content: content@ },
        Token::List { items } => TokenView::List { items: children_view(items@) },
        Token::Link { uri, label } => TokenView::Link { uri: uri@, label: label@ },
        Token::CodeBlock { content, language } => TokenView::CodeBlock {
            content: lines_view(content@),
            language: language@,
        },
        Token::Code(code) => TokenView::Code(code@),
        Token::ListItem { parts } => TokenView::ListItem { parts: children_view(parts@) },
    }
}

/// What the nodes that a node holds stand for.
pub open spec fn children_view(tokens: Seq<Token>) -> Seq<TokenView>
    decreases tokens,
{
    Seq::new(
        tokens.len(),
        |i: int|
            if 0 <= i < tokens.len() {
                token_view(tokens[i])
            } else {
                arbitrary()
            },
    )
}

impl View for Token {
    type V = TokenView;

    open spec fn view(&self) -> TokenView {
        token_view(*self)
    }
}

impl Token {
    /// The name of the node's kind, by which its template is found.
    pub open spec fn kind_name(self) -> Seq<char> {
        match self {
            Token::Text(_) => "text"@,
            Token::Paragraph { .. } => "paragraph"@,
            Token::Image { .. } => "image"@,
            Token::Table { .. } => "table"@,
            Token::Heading { .. } => "heading"@,
            Token::List { .. } => "list"@,
            Token::Link { .. } => "link"@,
            Token::Code(_) => "inline_code"@,
            Token::CodeBlock { .. } => "code_block"@,
            Token::ListItem { .. } => "list_item"@,
        }
    }

    /// The name of the node's kind, by which its template is found.
    pub fn kind(&self) -> (name: &'static str)
        ensures
            name@ == self.kind_name(),
    {
        match self {
            Token::Text(_) => "text",
            Token::Paragraph { .. } => "paragraph",
            Token::Image { .. } => "image",
            Token::Table { .. } => "table",
            Token::Heading { .. } => "heading",
            Token::List { .. } => "list",
            Token::Link { .. } => "link",
            Token::Code(_) => "inline_code",
            Token::CodeBlock { .. } => "code_block",
            Token::ListItem { .. } => "list_item",
        }
    }
}

/// What a sequence of `Token`s stands for.
pub open spec fn tokens_view(tokens: Seq<Token>) -> Seq<TokenView> {
    tokens.map_values(|t: Token| t@)
}

/// What the columns of a table stand for.
pub open spec fn columns_view(cols: Seq<Vec<String>>) -> Seq<Seq<Seq<char>>> {
    cols.map_values(|c: Vec<String>| texts(c@))
}

/// The nodes that a node holds stand for what each of them stands for.
pub proof fn lemma_children_view(tokens: Seq<Token>)
    ensures
        children_view(tokens) == tokens_view(tokens),
{
}

/// A node that holds nodes stands for one that holds what they stand for.
pub proof fn lemma_view_of_children(token: Token)
    ensures
        match token {
            Token::Paragraph { parts } => token@ == (TokenView::Paragraph {
                parts: tokens_view(parts@),
            }),
            Token::List { items } => token@ == (TokenView::List { items: tokens_view(items@) }),
            Token::ListItem { parts } => token@ == (TokenView::ListItem {
                parts: tokens_view(parts@),
            }),
            _ => true,
        },
{
    match token {
        Token::Paragraph { parts } => lemma_children_view(parts@),
        Token::List { items } => lemma_children_view(items@),
        Token::ListItem { parts } => lemma_children_view(parts@),
        _ => {},
    }
}

} // verus!
