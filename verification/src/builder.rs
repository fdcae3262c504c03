//! The tree builder: a stream of events becomes a sequence of document nodes.

use crate::event::{CodeBlockKind, Event, Tag, TagEnd};
use crate::syntax::{block_text, highlight_code, highlights, texts, Catalog};
use crate::token::{
    columns_view, lemma_view_of_children, tokens_view, InnerHeadingLevel, Token, TokenView,
};
use vstd::prelude::*;

verus! {

/// What a sub-routine read: a value, and the number of events that it used.
pub struct Scan<T> {
    pub value: T,
    pub used: nat,
}

/// The number of events from `pos` to the end of the stream.
pub open spec fn left(events: Seq<Event>, pos: int) -> nat {
    if 0 <= pos < events.len() {
        (events.len() - pos) as nat
    } else {
        0
    }
}

/// The text events from `pos` up to the first `End(end)`, one after the
/// other. That end event is used too; without one the stream is read to its
/// end.
pub open spec fn text_until(events: Seq<Event>, pos: int, end: TagEnd) -> Scan<Seq<char>>
    decreases left(events, pos),
{
    if 0 <= pos < events.len() {
        let rest = text_until(events, pos + 1, end);
        match events[pos] {
            Event::End(e) if e == end => Scan { value: Seq::empty(), used: 1 },
            Event::Text(t) => Scan { value: t@ + rest.value, used: rest.used + 1 },
            _ => Scan { value: rest.value, used: rest.used + 1 },
        }
    } else {
        Scan { value: Seq::empty(), used: 0 }
    }
}

/// `first`, read with `used` events, before what `rest` read.
pub open spec fn then<T>(first: T, used: nat, rest: Scan<Seq<T>>) -> Scan<Seq<T>> {
    Scan { value: seq![first] + rest.value, used: used + rest.used }
}

/// What `rest` read, after one event that gave nothing.
pub open spec fn skip<T>(rest: Scan<T>) -> Scan<T> {
    Scan { value: rest.value, used: 1 + rest.used }
}

/// Nothing read, with `used` events.
pub open spec fn done<T>(used: nat) -> Scan<Seq<T>> {
    Scan { value: Seq::empty(), used }
}

/// The link that starts before `pos`: its label is the text up to the next
/// `End(Link)`.
pub open spec fn link(events: Seq<Event>, pos: int, dest_url: Seq<char>) -> Scan<TokenView> {
    let label = text_until(events, pos, TagEnd::Link);
    Scan { value: TokenView::Link { uri: dest_url, label: label.value }, used: label.used }
}

/// The image that starts before `pos`: its alt text is the text up to the
/// next `End(Image)`.
pub open spec fn image(events: Seq<Event>, pos: int, dest_url: Seq<char>) -> Scan<TokenView> {
    let alt = text_until(events, pos, TagEnd::Image);
    Scan { value: TokenView::Image { uri: dest_url, text: alt.value }, used: alt.used }
}

/// The heading that starts before `pos`: its content is the text up to the
/// next `End(Heading)`.
pub open spec fn heading(events: Seq<Event>, pos: int, level: u8) -> Scan<TokenView> {
    let content = text_until(events, pos, TagEnd::Heading);
    Scan { value: TokenView::Heading { level, content: content.value }, used: content.used }
}

/// The parts of the paragraph that starts before `pos`: text, code spans,
/// links and images in the order met, up to the next `End(Paragraph)`.
pub open spec fn paragraph_parts(events: Seq<Event>, pos: int) -> Scan<Seq<TokenView>>
    decreases left(events, pos),
{
    if 0 <= pos < events.len() {
        match events[pos] {
            Event::End(TagEnd::Paragraph) => done(1),
            Event::Text(t) => then(TokenView::Text(t@), 1, paragraph_parts(events, pos + 1)),
            Event::Code(c) => then(TokenView::Code(c@), 1, paragraph_parts(events, pos + 1)),
            Event::Start(Tag::Link { dest_url }) => {
                let l = link(events, pos + 1, dest_url@);
                then(l.value, 1 + l.used, paragraph_parts(events, pos + 1 + l.used))
            },
            Event::Start(Tag::Image { dest_url }) => {
                let i = image(events, pos + 1, dest_url@);
                then(i.value, 1 + i.used, paragraph_parts(events, pos + 1 + i.used))
            },
            _ => skip(paragraph_parts(events, pos + 1)),
        }
    } else {
        done(0)
    }
}

/// The paragraph that starts before `pos`.
pub open spec fn paragraph(events: Seq<Event>, pos: int) -> Scan<TokenView> {
    let parts = paragraph_parts(events, pos);
    Scan { value: TokenView::Paragraph { parts: parts.value }, used: parts.used }
}

/// The items of the list that starts before `pos`: one for each `Start(Item)`
/// met in a row. The first event that is no `Start(Item)` ends the list and is
/// used too.
pub open spec fn list_items(events: Seq<Event>, pos: int) -> Scan<Seq<TokenView>>
    decreases left(events, pos), 1nat,
{
    if 0 <= pos < events.len() {
        match events[pos] {
            Event::Start(Tag::Item) => {
                let parts = item_parts(events, pos + 1);
                then(
                    TokenView::ListItem { parts: parts.value },
                    1 + parts.used,
                    list_items(events, pos + 1 + parts.used),
                )
            },
            _ => done(1),
        }
    } else {
        done(0)
    }
}

/// The parts of the list item that starts before `pos`: text, code spans,
/// links and nested lists in the order met, up to the next `End(Item)` that no
/// nested list has read.
pub open spec fn item_parts(events: Seq<Event>, pos: int) -> Scan<Seq<TokenView>>
    decreases left(events, pos), 0nat,
{
    if 0 <= pos < events.len() {
        match events[pos] {
            Event::End(TagEnd::Item) => done(1),
            Event::Text(t) => then(TokenView::Text(t@), 1, item_parts(events, pos + 1)),
            Event::Code(c) => then(TokenView::Code(c@), 1, item_parts(events, pos + 1)),
            Event::Start(Tag::Link { dest_url }) => {
                let l = link(events, pos + 1, dest_url@);
                then(l.value, 1 + l.used, item_parts(events, pos + 1 + l.used))
            },
            Event::Start(Tag::List) => {
                let items = list_items(events, pos + 1);
                then(
                    TokenView::List { items: items.value },
                    1 + items.used,
                    item_parts(events, pos + 1 + items.used),
                )
            },
            _ => skip(item_parts(events, pos + 1)),
        }
    } else {
        done(0)
    }
}

/// The list that starts before `pos`.
pub open spec fn list(events: Seq<Event>, pos: int) -> Scan<TokenView> {
    let items = list_items(events, pos);
    Scan { value: TokenView::List { items: items.value }, used: items.used }
}

/// The headings of the table head that starts before `pos`: one for each text
/// event, up to the next `End(TableHead)`.
pub open spec fn head_cells(events: Seq<Event>, pos: int) -> Scan<Seq<Seq<char>>>
    decreases left(events, pos),
{
    if 0 <= pos < events.len() {
        match events[pos] {
            Event::End(TagEnd::TableHead) => done(1),
            Event::Text(t) => then(t@, 1, head_cells(events, pos + 1)),
            _ => skip(head_cells(events, pos + 1)),
        }
    } else {
        done(0)
    }
}

/// The headings of the table that starts before `pos`. A table whose first
/// event starts no table head has none, and that event is read with the
/// rows.
pub open spec fn table_headings(events: Seq<Event>, pos: int) -> Scan<Seq<Seq<char>>> {
    if 0 <= pos < events.len() && events[pos] == Event::Start(Tag::TableHead) {
        skip(head_cells(events, pos + 1))
    } else {
        done(0)
    }
}

/// The cells of the table row that starts before `pos`, when `cell` has been
/// read of the cell at `pos`. Text and code spans make up a cell, each
/// `End(TableCell)` closes one, and the next `End(TableRow)` closes the row;
/// what was read of a cell that is not closed is lost.
pub open spec fn row_cells(events: Seq<Event>, pos: int, cell: Seq<char>) -> Scan<Seq<Seq<char>>>
    decreases left(events, pos),
{
    if 0 <= pos < events.len() {
        match events[pos] {
            Event::End(TagEnd::TableRow) => done(1),
            Event::End(TagEnd::TableCell) => then(cell, 1, row_cells(events, pos + 1, Seq::empty())),
            Event::Text(t) => skip(row_cells(events, pos + 1, cell + t@)),
            Event::Code(c) => skip(row_cells(events, pos + 1, cell + c@)),
            _ => skip(row_cells(events, pos + 1, cell)),
        }
    } else {
        done(0)
    }
}

/// The rows from `pos` up to the next `End(Table)`, each with its cells: one
/// row for each `Start(TableRow)` met.
pub open spec fn table_rows(events: Seq<Event>, pos: int) -> Scan<Seq<Seq<Seq<char>>>>
    decreases left(events, pos),
{
    if 0 <= pos < events.len() {
        match events[pos] {
            Event::End(TagEnd::Table) => done(1),
            Event::Start(Tag::TableRow) => {
                let row = row_cells(events, pos + 1, Seq::empty());
                then(row.value, 1 + row.used, table_rows(events, pos + 1 + row.used))
            },
            _ => skip(table_rows(events, pos + 1)),
        }
    } else {
        done(0)
    }
}

/// Column `i` of some rows: the cell at place `i` of each row that has one, in
/// row order.
pub open spec fn column(rows: Seq<Seq<Seq<char>>>, i: int) -> Seq<Seq<char>>
    decreases rows.len(),
{
    if rows.len() == 0 {
        Seq::empty()
    } else if 0 <= i < rows.last().len() {
        column(rows.drop_last(), i).push(rows.last()[i])
    } else {
        column(rows.drop_last(), i)
    }
}

/// The first `width` columns of some rows.
pub open spec fn columns(rows: Seq<Seq<Seq<char>>>, width: nat) -> Seq<Seq<Seq<char>>> {
    Seq::new(width, |i: int| column(rows, i))
}

/// The number of cells that a row has beyond `width`.
pub open spec fn excess(cells: nat, width: nat) -> nat {
    if cells > width {
        (cells - width) as nat
    } else {
        0
    }
}

/// The number of cells that some rows have beyond `width`, all rows together.
pub open spec fn overflow(rows: Seq<Seq<Seq<char>>>, width: nat) -> nat
    decreases rows.len(),
{
    if rows.len() == 0 {
        0
    } else {
        overflow(rows.drop_last(), width) + excess(rows.last().len(), width)
    }
}

/// The columns after one more row: each column that the row has a cell for
/// gets that cell at its end.
pub open spec fn with_row(cols: Seq<Seq<Seq<char>>>, cells: Seq<Seq<char>>) -> Seq<
    Seq<Seq<char>>,
> {
    Seq::new(
        cols.len(),
        |i: int|
            if i < cells.len() {
                cols[i].push(cells[i])
            } else {
                cols[i]
            },
    )
}

/// The table that starts before `pos`: its headings, and one column for each
/// heading. Cells beyond the last heading are in no column.
pub open spec fn table(events: Seq<Event>, pos: int) -> Scan<TokenView> {
    let head = table_headings(events, pos);
    let rows = table_rows(events, pos + head.used);
    Scan {
        value: TokenView::Table {
            headings: head.value,
            cols: columns(rows.value, head.value.len()),
        },
        used: head.used + rows.used,
    }
}

/// The number of cells of the table that starts before `pos` that are in no
/// column, for want of a heading.
pub open spec fn table_overflow(events: Seq<Event>, pos: int) -> nat {
    let head = table_headings(events, pos);
    overflow(table_rows(events, pos + head.used).value, head.value.len())
}

/// The language tag of a code block: that of its fence, and none for an
/// indented block.
pub open spec fn language_of(kind: CodeBlockKind) -> Seq<char> {
    match kind {
        CodeBlockKind::Indented => Seq::empty(),
        CodeBlockKind::Fenced(language) => language@,
    }
}

/// The text of the code block that starts before `pos`: its text events up to
/// the next `End(CodeBlock)`, one after the other.
pub open spec fn code_text(events: Seq<Event>, pos: int) -> Scan<Seq<char>> {
    text_until(events, pos, TagEnd::CodeBlock)
}

/// A top-level node as the events alone give it: a code block's lines wait
/// for the highlighter.
pub enum Block {
    /// Any node but a code block.
    Node(TokenView),
    /// A code block, with its language tag and its text.
    Code { language: Seq<char>, text: Seq<char> },
}

/// The top-level nodes of a stream, with the number of table cells that are in
/// no column.
pub struct Outline {
    pub blocks: Seq<Block>,
    pub dropped: nat,
}

/// `block`, with `dropped` cells left out of it, before what `rest` holds.
pub open spec fn before(block: Block, dropped: nat, rest: Outline) -> Outline {
    Outline { blocks: seq![block] + rest.blocks, dropped: dropped + rest.dropped }
}

/// The top-level nodes that the events from `pos` on give.
///
/// A start event of a heading, a list, a table, a code block or a paragraph
/// opens a node, which is read to its end. Every other event at this level
/// gives nothing.
pub open spec fn outline(events: Seq<Event>, pos: int) -> Outline
    decreases left(events, pos),
{
    if 0 <= pos < events.len() {
        match events[pos] {
            Event::Start(Tag::Heading(level)) => {
                let h = heading(events, pos + 1, level@);
                before(Block::Node(h.value), 0, outline(events, pos + 1 + h.used))
            },
            Event::Start(Tag::List) => {
                let l = list(events, pos + 1);
                before(Block::Node(l.value), 0, outline(events, pos + 1 + l.used))
            },
            Event::Start(Tag::Table) => {
                let t = table(events, pos + 1);
                before(
                    Block::Node(t.value),
                    table_overflow(events, pos + 1),
                    outline(events, pos + 1 + t.used),
                )
            },
            Event::Start(Tag::CodeBlock(kind)) => {
                let c = code_text(events, pos + 1);
                before(
                    Block::Code { language: language_of(kind), text: c.value },
                    0,
                    outline(events, pos + 1 + c.used),
                )
            },
            Event::Start(Tag::Paragraph) => {
                let p = paragraph(events, pos + 1);
                before(Block::Node(p.value), 0, outline(events, pos + 1 + p.used))
            },
            _ => outline(events, pos + 1),
        }
    } else {
        Outline { blocks: Seq::empty(), dropped: 0 }
    }
}

/// `token` is what `block` becomes with the catalog's highlighting: the same
/// node, and for a code block one whose lines are a highlighting of its text.
pub open spec fn renders(catalog: &Catalog, block: Block, token: TokenView) -> bool {
    match block {
        Block::Node(node) => token == node,
        Block::Code { language, text } => {
            &&& token matches TokenView::CodeBlock { content, language: tag }
            &&& tag == language
            &&& highlights(catalog, text, language, content)
            &&& block_text(content) == text
        },
    }
}

/// `tokens` are what `blocks` become with the catalog's highlighting, one for
/// one and in order.
pub open spec fn renders_all(catalog: &Catalog, blocks: Seq<Block>, tokens: Seq<TokenView>) -> bool {
    &&& tokens.len() == blocks.len()
    &&& forall|i: int| 0 <= i < blocks.len() ==> renders(catalog, blocks[i], #[trigger] tokens[i])
}

/// A column holds one cell for each row that has a cell at the column's
/// place.
pub proof fn lemma_column_len(rows: Seq<Seq<Seq<char>>>, i: int)
    requires
        0 <= i,
        forall|r: int| 0 <= r < rows.len() ==> i < (#[trigger] rows[r]).len(),
    ensures
        column(rows, i).len() == rows.len(),
    decreases rows.len(),
{
    if rows.len() > 0 {
        let before = rows.drop_last();
        assert forall|r: int| 0 <= r < before.len() implies i < (#[trigger] before[r]).len() by {
            assert(before[r] == rows[r]);
        }
        lemma_column_len(before, i);
    }
}

/// A table has one column for each heading. Where each row has a cell for
/// every heading, each column holds one cell for each row.
pub proof fn lemma_table_shape(events: Seq<Event>, pos: int)
    ensures
        table(events, pos).value matches TokenView::Table { headings, cols } && {
            let rows = table_rows(events, pos + table_headings(events, pos).used).value;
            &&& cols.len() == headings.len()
            &&& (forall|r: int| 0 <= r < rows.len() ==> (#[trigger] rows[r]).len() >= headings.len())
                ==> forall|i: int| 0 <= i < cols.len() ==> (#[trigger] cols[i]).len() == rows.len()
        },
{
    let head = table_headings(events, pos);
    let rows = table_rows(events, pos + head.used).value;
    let width = head.value.len();
    if forall|r: int| 0 <= r < rows.len() ==> (#[trigger] rows[r]).len() >= width {
        assert forall|i: int| 0 <= i < width implies (#[trigger] columns(rows, width)[i]).len()
            == rows.len() by {
            lemma_column_len(rows, i);
        }
    }
}

/// A forward-only reader of an event stream.
pub struct Cursor<'a> {
    events: &'a [Event],
    pos: usize,
}

impl<'a> Cursor<'a> {
    #[verifier::type_invariant]
    spec fn in_range(self) -> bool {
        self.pos <= self.events@.len()
    }

    /// The whole stream.
    pub closed spec fn events(self) -> Seq<Event> {
        self.events@
    }

    /// The number of events read so far.
    pub closed spec fn pos(self) -> int {
        self.pos as int
    }

    /// A cursor at the start of a stream.
    pub fn new(events: &'a [Event]) -> (cursor: Cursor<'a>)
        ensures
            cursor.events() == events@,
            cursor.pos() == 0,
    {
        Cursor { events, pos: 0 }
    }

    /// The next event, if there is one; the cursor moves past it.
    pub fn next(&mut self) -> (event: Option<&'a Event>)
        ensures
            final(self).events() == old(self).events(),
            0 <= old(self).pos() <= old(self).events().len(),
            old(self).pos() < old(self).events().len() ==> final(self).pos() == old(self).pos() + 1
                && event == Some(&old(self).events()[old(self).pos()]),
            old(self).pos() >= old(self).events().len() ==> final(self).pos() == old(self).pos()
                && event is None,
    {
        proof {
            use_type_invariant(&*self);
        }
        if self.pos < self.events.len() {
            let event = &self.events[self.pos];
            self.pos += 1;
            Some(event)
        } else {
            None
        }
    }
}

/// Reads text up to the next `End(end)`, which is read too.
fn take_text_until(cursor: &mut Cursor, end: TagEnd) -> (text: String)
    ensures
        final(cursor).events() == old(cursor).events(),
        final(cursor).pos() == old(cursor).pos() + text_until(
            old(cursor).events(),
            old(cursor).pos(),
            end,
        ).used,
        text@ == text_until(old(cursor).events(), old(cursor).pos(), end).value,
{
    let mut text = String::new();
    let ghost events = cursor.events();
    let ghost start = cursor.pos();
    proof {
        use_type_invariant(&*cursor);
    }
    loop
        invariant_except_break
            text_until(events, start, end).value == text@ + text_until(
                events,
                cursor.pos(),
                end,
            ).value,
            start + text_until(events, start, end).used == cursor.pos() + text_until(
                events,
                cursor.pos(),
                end,
            ).used,
        invariant
            cursor.events() == events,
            start <= cursor.pos() <= events.len(),
        ensures
            cursor.events() == events,
            text_until(events, start, end).value == text@,
            start + text_until(events, start, end).used == cursor.pos(),
        decreases events.len() - cursor.pos(),
    {
        match cursor.next() {
            Some(Event::Text(t)) => {
                text.append(t.as_str());
            },
            Some(Event::End(e)) => {
                if *e == end {
                    break ;
                }
            },
            Some(_) => {},
            None => {
                break ;
            },
        }
    }
    text
}

/// Reads a heading, from after its start event to its end event.
///
/// The heading's content is its text events, one after the other; whatever
/// else stands in a heading is passed over.
pub fn take_heading(cursor: &mut Cursor, level: InnerHeadingLevel) -> (token: Token)
    ensures
        final(cursor).events() == old(cursor).events(),
        final(cursor).pos() == old(cursor).pos() + heading(
            old(cursor).events(),
            old(cursor).pos(),
            level@,
        ).used,
        token@ == heading(old(cursor).events(), old(cursor).pos(), level@).value,
{
    let content = take_text_until(cursor, TagEnd::Heading);
    Token::Heading { level, content }
}

/// Reads a link, from after its start event to its end event. The link's
/// label is the text events in between, one after the other.
pub fn take_link(cursor: &mut Cursor, dest_url: &str) -> (token: Token)
    ensures
        final(cursor).events() == old(cursor).events(),
        final(cursor).pos() == old(cursor).pos() + link(
            old(cursor).events(),
            old(cursor).pos(),
            dest_url@,
        ).used,
        token@ == link(old(cursor).events(), old(cursor).pos(), dest_url@).value,
{
    let label = take_text_until(cursor, TagEnd::Link);
    Token::Link { uri: dest_url.to_owned(), label }
}

/// Reads an image, from after its start event to its end event. The image's
/// alt text is the text events in between, one after the other.
pub fn take_image(cursor: &mut Cursor, dest_url: &str) -> (token: Token)
    ensures
        final(cursor).events() == old(cursor).events(),
        final(cursor).pos() == old(cursor).pos() + image(
            old(cursor).events(),
            old(cursor).pos(),
            dest_url@,
        ).used,
        token@ == image(old(cursor).events(), old(cursor).pos(), dest_url@).value,
{
    let text = take_text_until(cursor, TagEnd::Image);
    Token::Image { uri: dest_url.to_owned(), text }
}

/// Reads a paragraph, from after its start event to its end event.
///
/// Its parts are the text, the code spans, the links and the images in the
/// order met; whatever else stands in a paragraph is passed over.
pub fn take_paragraph(cursor: &mut Cursor) -> (token: Token)
    ensures
        final(cursor).events() == old(cursor).events(),
        final(cursor).pos() == old(cursor).pos() + paragraph(
            old(cursor).events(),
            old(cursor).pos(),
        ).used,
        token@ == paragraph(old(cursor).events(), old(cursor).pos()).value,
{
    let mut parts: Vec<Token> = Vec::new();
    let ghost events = cursor.events();
    let ghost start = cursor.pos();
    proof {
        use_type_invariant(&*cursor);
    }
    loop
        invariant_except_break
            paragraph_parts(events, start).value == tokens_view(parts@) + paragraph_parts(
                events,
                cursor.pos(),
            ).value,
            start + paragraph_parts(events, start).used == cursor.pos() + paragraph_parts(
                events,
                cursor.pos(),
            ).used,
        invariant
            cursor.events() == events,
            start <= cursor.pos() <= events.len(),
        ensures
            cursor.events() == events,
            paragraph_parts(events, start).value == tokens_view(parts@),
            start + paragraph_parts(events, start).used == cursor.pos(),
        decreases events.len() - cursor.pos(),
    {
        let part = match cursor.next() {
            Some(Event::Text(t)) => Some(Token::Text(t.clone())),
            Some(Event::Code(c)) => Some(Token::Code(c.clone())),
            Some(Event::Start(Tag::Link { dest_url })) => Some(take_link(cursor, dest_url.as_str())),
            Some(Event::Start(Tag::Image { dest_url })) => Some(
                take_image(cursor, dest_url.as_str()),
            ),
            Some(Event::End(TagEnd::Paragraph)) => {
                break ;
            },
            Some(_) => None,
            None => {
                break ;
            },
        };
        if let Some(token) = part {
            proof {
                use_type_invariant(&*cursor);
            }
            parts.push(token);
        }
    }
    let token = Token::Paragraph { parts };
    proof {
        lemma_view_of_children(token);
    }
    token
}

/// Reads a list, from after its start event to the first event that starts
/// no item, which ends the list and is read too.
pub fn take_list(cursor: &mut Cursor) -> (token: Token)
    ensures
        final(cursor).events() == old(cursor).events(),
        final(cursor).pos() == old(cursor).pos() + list(old(cursor).events(), old(cursor).pos()).used,
        token@ == list(old(cursor).events(), old(cursor).pos()).value,
    decreases old(cursor).events().len() - old(cursor).pos(),
{
    let mut items: Vec<Token> = Vec::new();
    let ghost events = cursor.events();
    let ghost start = cursor.pos();
    proof {
        use_type_invariant(&*cursor);
    }
    loop
        invariant_except_break
            list_items(events, start).value == tokens_view(items@) + list_items(
                events,
                cursor.pos(),
            ).value,
            start + list_items(events, start).used == cursor.pos() + list_items(
                events,
                cursor.pos(),
            ).used,
        invariant
            cursor.events() == events,
            start <= cursor.pos() <= events.len(),
            events == old(cursor).events(),
            start == old(cursor).pos(),
        ensures
            cursor.events() == events,
            list_items(events, start).value == tokens_view(items@),
            start + list_items(events, start).used == cursor.pos(),
        decreases events.len() - cursor.pos(),
    {
        match cursor.next() {
            Some(Event::Start(Tag::Item)) => {
                let item = take_list_items(cursor);
                proof {
                    use_type_invariant(&*cursor);
                }
                items.push(item);
            },
            _ => {
                break ;
            },
        }
    }
    let token = Token::List { items };
    proof {
        lemma_view_of_children(token);
    }
    token
}

/// Reads a list item, from after its start event to its end event.
///
/// Its parts are the text, the code spans, the links and the nested lists in
/// the order met; whatever else stands in an item is passed over.
pub fn take_list_items(cursor: &mut Cursor) -> (token: Token)
    ensures
        final(cursor).events() == old(cursor).events(),
        final(cursor).pos() == old(cursor).pos() + item_parts(
            old(cursor).events(),
            old(cursor).pos(),
        ).used,
        token@ == (TokenView::ListItem {
            parts: item_parts(old(cursor).events(), old(cursor).pos()).value,
        }),
    decreases old(cursor).events().len() - old(cursor).pos(),
{
    let mut parts: Vec<Token> = Vec::new();
    let ghost events = cursor.events();
    let ghost start = cursor.pos();
    proof {
        use_type_invariant(&*cursor);
    }
    loop
        invariant_except_break
            item_parts(events, start).value == tokens_view(parts@) + item_parts(
                events,
                cursor.pos(),
            ).value,
            start + item_parts(events, start).used == cursor.pos() + item_parts(
                events,
                cursor.pos(),
            ).used,
        invariant
            cursor.events() == events,
            start <= cursor.pos() <= events.len(),
            events == old(cursor).events(),
            start == old(cursor).pos(),
        ensures
            cursor.events() == events,
            item_parts(events, start).value == tokens_view(parts@),
            start + item_parts(events, start).used == cursor.pos(),
        decreases events.len() - cursor.pos(),
    {
        let part = match cursor.next() {
            Some(Event::Text(t)) => Some(Token::Text(t.clone())),
            Some(Event::Code(c)) => Some(Token::Code(c.clone())),
            Some(Event::Start(Tag::Link { dest_url })) => Some(take_link(cursor, dest_url.as_str())),
            Some(Event::Start(Tag::List)) => Some(take_list(cursor)),
            Some(Event::End(TagEnd::Item)) => {
                break ;
            },
            Some(_) => None,
            None => {
                break ;
            },
        };
        if let Some(token) = part {
            proof {
                use_type_invariant(&*cursor);
            }
            parts.push(token);
        }
    }
    let token = Token::ListItem { parts };
    proof {
        lemma_view_of_children(token);
    }
    token
}

/// Reads the headings of a table, from after the start event of its head to
/// the end event of the head: one heading for each text event.
pub fn take_table_headings(cursor: &mut Cursor) -> (headings: Vec<String>)
    ensures
        final(cursor).events() == old(cursor).events(),
        final(cursor).pos() == old(cursor).pos() + head_cells(
            old(cursor).events(),
            old(cursor).pos(),
        ).used,
        texts(headings@) == head_cells(old(cursor).events(), old(cursor).pos()).value,
{
    let mut headings: Vec<String> = Vec::new();
    let ghost events = cursor.events();
    let ghost start = cursor.pos();
    proof {
        use_type_invariant(&*cursor);
        assert(texts(headings@) == Seq::<Seq<char>>::empty());
    }
    loop
        invariant_except_break
            head_cells(events, start).value == texts(headings@) + head_cells(
                events,
                cursor.pos(),
            ).value,
            start + head_cells(events, start).used == cursor.pos() + head_cells(
                events,
                cursor.pos(),
            ).used,
        invariant
            cursor.events() == events,
            start <= cursor.pos() <= events.len(),
        ensures
            cursor.events() == events,
            head_cells(events, start).value == texts(headings@),
            start + head_cells(events, start).used == cursor.pos(),
        decreases events.len() - cursor.pos(),
    {
        let ghost before = texts(headings@);
        match cursor.next() {
            Some(Event::Text(t)) => {
                let heading = t.clone();
                proof {
                    assert(texts(headings@.push(heading)) == before.push(heading@));
                    assert(before.push(heading@) + head_cells(events, cursor.pos()).value == before
                        + (seq![heading@] + head_cells(events, cursor.pos()).value));
                }
                headings.push(heading);
            },
            Some(Event::End(TagEnd::TableHead)) => {
                break ;
            },
            Some(_) => {},
            None => {
                break ;
            },
        }
    }
    headings
}

/// Reads a table row, from after its start event to its end event, and puts
/// each of its cells at the end of the column of its place.
///
/// A cell is the text and the code spans up to an `End(TableCell)`, one after
/// the other. A cell at a place beyond the last column goes into no column:
/// the number of such cells is returned.
pub fn take_table_row(cursor: &mut Cursor, columns: &mut Vec<Vec<String>>) -> (dropped: usize)
    ensures
        final(cursor).events() == old(cursor).events(),
        final(cursor).pos() == old(cursor).pos() + row_cells(
            old(cursor).events(),
            old(cursor).pos(),
            Seq::empty(),
        ).used,
        columns_view(final(columns)@) == with_row(
            columns_view(old(columns)@),
            row_cells(old(cursor).events(), old(cursor).pos(), Seq::empty()).value,
        ),
        dropped == excess(
            row_cells(old(cursor).events(), old(cursor).pos(), Seq::empty()).value.len(),
            old(columns)@.len(),
        ),
        dropped <= final(cursor).pos() - old(cursor).pos(),
{
    let mut idx: usize = 0;
    let mut dropped: usize = 0;
    let mut cell = String::new();
    let ghost events = cursor.events();
    let ghost start = cursor.pos();
    let ghost before = columns_view(columns@);
    let ghost mut cells = Seq::<Seq<char>>::empty();
    proof {
        use_type_invariant(&*cursor);
    }
    loop
        invariant_except_break
            row_cells(events, start, Seq::empty()).value == cells + row_cells(
                events,
                cursor.pos(),
                cell@,
            ).value,
            start + row_cells(events, start, Seq::empty()).used == cursor.pos() + row_cells(
                events,
                cursor.pos(),
                cell@,
            ).used,
        invariant
            cursor.events() == events,
            start <= cursor.pos() <= events.len(),
            columns@.len() == before.len(),
            columns_view(columns@) == with_row(before, cells),
            idx + dropped == cells.len(),
            idx <= columns@.len(),
            dropped > 0 ==> idx == columns@.len(),
            cells.len() <= cursor.pos() - start,
        ensures
            cursor.events() == events,
            row_cells(events, start, Seq::empty()).value == cells,
            start + row_cells(events, start, Seq::empty()).used == cursor.pos(),
            cells.len() <= cursor.pos() - start,
        decreases events.len() - cursor.pos(),
    {
        match cursor.next() {
            Some(Event::Text(t)) => {
                cell.append(t.as_str());
            },
            Some(Event::Code(c)) => {
                cell.append(c.as_str());
            },
            Some(Event::End(TagEnd::TableCell)) => {
                let ghost shown = columns_view(columns@);
                if idx < columns.len() {
                    let ghost text = cell@;
                    let ghost old_col = columns@[idx as int]@;
                    columns[idx].push(cell);
                    proof {
                        assert(columns_view(columns@) =~= with_row(before, cells.push(text))) by {
                            assert forall|i: int| 0 <= i < before.len() implies columns_view(
                                columns@,
                            )[i] == with_row(before, cells.push(text))[i] by {
                                if i == idx {
                                    assert(shown[i] == texts(old_col));
                                } else {
                                    assert(columns_view(columns@)[i] == shown[i]);
                                }
                            }
                        }
                    }
                    idx += 1;
                } else {
                    dropped += 1;
                }
                proof {
                    cells = cells.push(cell@);
                }
                cell = String::new();
            },
            Some(Event::End(TagEnd::TableRow)) => {
                break ;
            },
            Some(_) => {},
            None => {
                break ;
            },
        }
    }
    dropped
}

/// Reads a table, from after its start event to its end event.
///
/// The headings come first, where the table starts with a head. Each row
/// then puts its cells into the columns, one column for each heading; a cell
/// beyond the last heading is left out, and the number of such cells is
/// returned with the table.
pub fn take_table(cursor: &mut Cursor) -> (result: (Token, usize))
    ensures
        final(cursor).events() == old(cursor).events(),
        final(cursor).pos() == old(cursor).pos() + table(old(cursor).events(), old(cursor).pos()).used,
        result.0@ == table(old(cursor).events(), old(cursor).pos()).value,
        result.1 == table_overflow(old(cursor).events(), old(cursor).pos()),
        result.1 <= final(cursor).pos() - old(cursor).pos(),
{
    let ghost events = cursor.events();
    let ghost start = cursor.pos();
    let ghost head = table_headings(events, start);
    let ghost first = start + head.used;
    let opening = cursor.next();
    let headings: Vec<String>;
    let mut event: Option<&Event>;
    match opening {
        Some(Event::Start(Tag::TableHead)) => {
            headings = take_table_headings(cursor);
            proof {
                use_type_invariant(&*cursor);
            }
            event = cursor.next();
        },
        _ => {
            headings = Vec::new();
            event = opening;
            proof {
                assert(texts(headings@) == Seq::<Seq<char>>::empty());
            }
        },
    }
    let ghost width = texts(headings@).len();
    let ghost mut at = first;
    let mut cols: Vec<Vec<String>> = Vec::new();
    let mut i: usize = 0;
    while i < headings.len()
        invariant
            i <= headings.len(),
            cols@.len() == i,
            forall|j: int| 0 <= j < i ==> (#[trigger] cols@[j])@.len() == 0,
        decreases headings.len() - i,
    {
        cols.push(Vec::new());
        i += 1;
    }
    let mut dropped: usize = 0;
    let ghost mut rows = Seq::<Seq<Seq<char>>>::empty();
    proof {
        use_type_invariant(&*cursor);
        assert(columns_view(cols@) =~= columns(rows, width)) by {
            assert forall|j: int| 0 <= j < width implies columns_view(cols@)[j] == columns(
                rows,
                width,
            )[j] by {
                assert(texts(cols@[j]@) =~= Seq::<Seq<char>>::empty());
            }
        }
    }
    loop
        invariant_except_break
            table_rows(events, first).value == rows + table_rows(events, at).value,
            first + table_rows(events, first).used == at + table_rows(events, at).used,
        invariant
            cursor.events() == events,
            0 <= first <= at <= events.len(),
            at < events.len() ==> (event == Some(&events[at]) && cursor.pos() == at + 1),
            at >= events.len() ==> (event is None && cursor.pos() == at),
            cols@.len() == width,
            columns_view(cols@) == columns(rows, width),
            dropped == overflow(rows, width),
            dropped <= at - first,
        ensures
            cursor.events() == events,
            table_rows(events, first).value == rows,
            first + table_rows(events, first).used == cursor.pos(),
            cols@.len() == width,
            columns_view(cols@) == columns(rows, width),
            dropped == overflow(rows, width),
            dropped <= cursor.pos() - first,
        decreases events.len() - at,
    {
        match event {
            Some(Event::Start(Tag::TableRow)) => {
                let more = take_table_row(cursor, &mut cols);
                proof {
                    let row = row_cells(events, at + 1, Seq::empty()).value;
                    assert(rows.push(row).drop_last() == rows);
                    assert(with_row(columns(rows, width), row) =~= columns(rows.push(row), width));
                    assert(rows.push(row) + table_rows(events, cursor.pos()).value == rows + (
                    seq![row] + table_rows(events, cursor.pos()).value));
                    rows = rows.push(row);
                }
                dropped = dropped + more;
            },
            Some(Event::End(TagEnd::Table)) => {
                break ;
            },
            Some(_) => {},
            None => {
                break ;
            },
        }
        proof {
            use_type_invariant(&*cursor);
            at = cursor.pos();
        }
        event = cursor.next();
    }
    (Token::Table { headings, cols }, dropped)
}

/// Reads a code block, from after its start event to its end event, and
/// highlights its text.
///
/// The language tag is that of the fence, and empty for an indented block.
/// The text is the block's text events, one after the other, as they are.
pub fn take_code_block(cursor: &mut Cursor, kind: &CodeBlockKind, catalog: &Catalog) -> (token:
    Token)
    ensures
        final(cursor).events() == old(cursor).events(),
        final(cursor).pos() == old(cursor).pos() + code_text(
            old(cursor).events(),
            old(cursor).pos(),
        ).used,
        renders(
            catalog,
            Block::Code {
                language: language_of(*kind),
                text: code_text(old(cursor).events(), old(cursor).pos()).value,
            },
            token@,
        ),
{
    let language = match kind {
        CodeBlockKind::Indented => String::new(),
        CodeBlockKind::Fenced(language) => language.clone(),
    };
    let text = take_text_until(cursor, TagEnd::CodeBlock);
    let content = highlight_code(text, language.as_str(), catalog);
    Token::CodeBlock { content, language }
}

/// What a stream of events was built into.
#[derive(Debug, PartialEq)]
pub struct Document {
    /// The top-level nodes, in the order of the stream.
    pub tokens: Vec<Token>,
    /// The number of table cells that stood beyond their table's last heading
    /// and are in no column.
    pub dropped_cells: usize,
}

/// Builds the document tree of a stream of events.
///
/// Each start event of a heading, a list, a table, a code block or a
/// paragraph that is met at the top level gives one node, read to its end;
/// every other event there is passed over. A construct whose end event is
/// missing takes the rest of the stream. No stream makes the builder fail.
pub fn build(events: &[Event], catalog: &Catalog) -> (document: Document)
    ensures
        renders_all(catalog, outline(events@, 0).blocks, tokens_view(document.tokens@)),
        document.dropped_cells == outline(events@, 0).dropped,
{
    let mut cursor = Cursor::new(events);
    let mut tokens: Vec<Token> = Vec::new();
    let mut dropped: usize = 0;
    let ghost mut blocks = Seq::<Block>::empty();
    loop
        invariant_except_break
            outline(events@, 0).blocks == blocks + outline(events@, cursor.pos()).blocks,
            outline(events@, 0).dropped == dropped + outline(events@, cursor.pos()).dropped,
        invariant
            cursor.events() == events@,
            0 <= cursor.pos() <= events@.len(),
            renders_all(catalog, blocks, tokens_view(tokens@)),
            dropped <= cursor.pos(),
        ensures
            outline(events@, 0).blocks == blocks,
            outline(events@, 0).dropped == dropped,
            renders_all(catalog, blocks, tokens_view(tokens@)),
        decreases events@.len() - cursor.pos(),
    {
        let ghost at = cursor.pos();
        let ghost shown = tokens_view(tokens@);
        let read = match cursor.next() {
            Some(Event::Start(Tag::Heading(level))) => Some((take_heading(&mut cursor, *level), 0)),
            Some(Event::Start(Tag::List)) => Some((take_list(&mut cursor), 0)),
            Some(Event::Start(Tag::Table)) => Some(take_table(&mut cursor)),
            Some(Event::Start(Tag::CodeBlock(kind))) => Some(
                (take_code_block(&mut cursor, kind, catalog), 0),
            ),
            Some(Event::Start(Tag::Paragraph)) => Some((take_paragraph(&mut cursor), 0)),
            Some(_) => None,
            None => {
                break ;
            },
        };
        if let Some((token, more)) = read {
            proof {
                use_type_invariant(&cursor);
                let block = outline(events@, at).blocks[0];
                assert(tokens_view(tokens@.push(token)) == shown.push(token@));
                blocks = blocks.push(block);
            }
            tokens.push(token);
            dropped = dropped + more;
        }
    }
    Document { tokens, dropped_cells: dropped }
}

} // verus!
