//! Well-nested streams: the streams that a lexer makes, seen as the trees
//! that they are, and what the builder makes of them.

use crate::builder::{
    head_cells, item_parts, left, link, list, list_items, outline, paragraph_parts, row_cells,
    table, table_rows, text_until, Block,
};
use crate::event::{Event, Tag, TagEnd};
use crate::token::TokenView;
use vstd::prelude::*;

verus! {

/// A part of a well-nested stream.
pub enum Node {
    /// One event that neither starts nor ends anything.
    Leaf(Event),
    /// A start event, what stands inside, and the end event that matches.
    Branch(Tag, Seq<Node>),
}

/// The events of a node, in order.
pub open spec fn stream_of(node: Node) -> Seq<Event>
    decreases node,
{
    match node {
        Node::Leaf(event) => seq![event],
        Node::Branch(tag, inner) => seq![Event::Start(tag)] + stream(inner) + seq![
            Event::End(tag.end()),
        ],
    }
}

/// The events of some nodes, one node after the other.
pub open spec fn stream(nodes: Seq<Node>) -> Seq<Event>
    decreases nodes,
{
    if nodes.len() == 0 {
        Seq::empty()
    } else {
        stream_of(nodes.first()) + stream(nodes.drop_first())
    }
}

/// An event that neither starts nor ends anything.
pub open spec fn is_atom(event: Event) -> bool {
    !(event is Start) && !(event is End)
}

/// No node, at any depth, ends with `End(end)`, and every leaf is an atom.
pub open spec fn free_of(nodes: Seq<Node>, end: TagEnd) -> bool
    decreases nodes,
{
    nodes.len() == 0 || (node_free_of(nodes.first(), end) && free_of(nodes.drop_first(), end))
}

/// The node ends with no `End(end)` and holds none, and its leaves are atoms.
pub open spec fn node_free_of(node: Node, end: TagEnd) -> bool
    decreases node,
{
    match node {
        Node::Leaf(event) => is_atom(event),
        Node::Branch(tag, inner) => tag.end() != end && free_of(inner, end),
    }
}

/// `part` stands in `events` at `pos`.
pub open spec fn holds_at(events: Seq<Event>, pos: int, part: Seq<Event>) -> bool {
    &&& 0 <= pos
    &&& pos + part.len() <= events.len()
    &&& forall|k: int| 0 <= k < part.len() ==> events[pos + k] == #[trigger] part[k]
}

/// Where nodes stand in a stream, the first stands there and the others
/// after it.
proof fn lemma_first_and_rest(events: Seq<Event>, pos: int, nodes: Seq<Node>)
    requires
        holds_at(events, pos, stream(nodes)),
        nodes.len() > 0,
    ensures
        holds_at(events, pos, stream_of(nodes.first())),
        holds_at(events, pos + stream_of(nodes.first()).len(), stream(nodes.drop_first())),
        stream(nodes).len() == stream_of(nodes.first()).len() + stream(nodes.drop_first()).len(),
        stream_of(nodes.first()).len() >= 1,
{
    let a = stream_of(nodes.first());
    let b = stream(nodes.drop_first());
    assert forall|k: int| 0 <= k < a.len() implies events[pos + k] == #[trigger] a[k] by {
        assert(a[k] == (a + b)[k]);
    }
    assert forall|k: int| 0 <= k < b.len() implies events[pos + a.len() + k] == #[trigger] b[k] by {
        assert(b[k] == (a + b)[a.len() + k]);
    }
}

/// Where a branch stands in a stream, its start event stands first, what it
/// holds next, and its end event last.
proof fn lemma_branch(events: Seq<Event>, pos: int, tag: Tag, inner: Seq<Node>)
    requires
        holds_at(events, pos, stream_of(Node::Branch(tag, inner))),
    ensures
        events[pos] == Event::Start(tag),
        holds_at(events, pos + 1, stream(inner)),
        events[pos + 1 + stream(inner).len()] == Event::End(tag.end()),
        stream_of(Node::Branch(tag, inner)).len() == stream(inner).len() + 2,
{
    let whole = stream_of(Node::Branch(tag, inner));
    let mid = stream(inner);
    assert(whole[0] == Event::Start(tag));
    assert(whole[1 + mid.len() as int] == Event::End(tag.end()));
    assert forall|k: int| 0 <= k < mid.len() implies events[pos + 1 + k] == #[trigger] mid[k] by {
        assert(mid[k] == whole[1 + k]);
    }
}

/// Reading text up to `End(end)` goes through nodes that hold no such event.
pub proof fn lemma_text_through(events: Seq<Event>, pos: int, nodes: Seq<Node>, end: TagEnd)
    requires
        holds_at(events, pos, stream(nodes)),
        free_of(nodes, end),
    ensures
        text_until(events, pos, end).used == stream(nodes).len() + text_until(
            events,
            pos + stream(nodes).len(),
            end,
        ).used,
    decreases stream(nodes).len(),
{
    if nodes.len() > 0 {
        lemma_first_and_rest(events, pos, nodes);
        let rest = nodes.drop_first();
        assert(node_free_of(nodes.first(), end) && free_of(rest, end));
        match nodes.first() {
            Node::Leaf(event) => {
                assert(events[pos] == stream_of(nodes.first())[0]);
                lemma_text_through(events, pos + 1, rest, end);
            },
            Node::Branch(tag, inner) => {
                lemma_branch(events, pos, tag, inner);
                lemma_text_through(events, pos + 1, inner, end);
                lemma_text_through(events, pos + 2 + stream(inner).len(), rest, end);
            },
        }
    }
}

/// What may stand in a paragraph: atoms, links and images that hold no link
/// or image of their own kind, and other nodes, but no paragraph, that hold
/// the same.
pub open spec fn inline_content(nodes: Seq<Node>) -> bool
    decreases nodes,
{
    nodes.len() == 0 || (inline_node(nodes.first()) && inline_content(nodes.drop_first()))
}

/// A node that may stand in a paragraph.
pub open spec fn inline_node(node: Node) -> bool
    decreases node,
{
    match node {
        Node::Leaf(event) => is_atom(event),
        Node::Branch(Tag::Link { .. }, inner) => free_of(inner, TagEnd::Link),
        Node::Branch(Tag::Image { .. }, inner) => free_of(inner, TagEnd::Image),
        Node::Branch(tag, inner) => tag.end() != TagEnd::Paragraph && inline_content(inner),
    }
}

/// Reading a paragraph goes through what may stand in one.
pub proof fn lemma_paragraph_through(events: Seq<Event>, pos: int, nodes: Seq<Node>)
    requires
        holds_at(events, pos, stream(nodes)),
        inline_content(nodes),
    ensures
        paragraph_parts(events, pos).used == stream(nodes).len() + paragraph_parts(
            events,
            pos + stream(nodes).len(),
        ).used,
    decreases stream(nodes).len(),
{
    if nodes.len() > 0 {
        lemma_first_and_rest(events, pos, nodes);
        let rest = nodes.drop_first();
        assert(inline_node(nodes.first()) && inline_content(rest));
        match nodes.first() {
            Node::Leaf(event) => {
                assert(events[pos] == stream_of(nodes.first())[0]);
                lemma_paragraph_through(events, pos + 1, rest);
            },
            Node::Branch(tag, inner) => {
                lemma_branch(events, pos, tag, inner);
                let after = pos + 2 + stream(inner).len();
                match tag {
                    Tag::Link { dest_url } => {
                        lemma_text_through(events, pos + 1, inner, TagEnd::Link);
                    },
                    Tag::Image { dest_url } => {
                        lemma_text_through(events, pos + 1, inner, TagEnd::Image);
                    },
                    _ => {
                        lemma_paragraph_through(events, pos + 1, inner);
                    },
                }
                lemma_paragraph_through(events, after, rest);
            },
        }
    }
}

/// What may stand in a list item: atoms, links that hold no link, lists of
/// items, and other nodes, but no item, that hold the same.
pub open spec fn item_content(nodes: Seq<Node>) -> bool
    decreases nodes,
{
    nodes.len() == 0 || (item_node(nodes.first()) && item_content(nodes.drop_first()))
}

/// A node that may stand in a list item.
pub open spec fn item_node(node: Node) -> bool
    decreases node,
{
    match node {
        Node::Leaf(event) => is_atom(event),
        Node::Branch(Tag::Link { .. }, inner) => free_of(inner, TagEnd::Link),
        Node::Branch(Tag::List, inner) => list_content(inner),
        Node::Branch(tag, inner) => tag.end() != TagEnd::Item && item_content(inner),
    }
}

/// What may stand in a list: items.
pub open spec fn list_content(nodes: Seq<Node>) -> bool
    decreases nodes,
{
    nodes.len() == 0 || (list_node(nodes.first()) && list_content(nodes.drop_first()))
}

/// An item, with what may stand in one.
pub open spec fn list_node(node: Node) -> bool
    decreases node,
{
    match node {
        Node::Branch(Tag::Item, inner) => item_content(inner),
        _ => false,
    }
}

/// The larger of two numbers.
pub open spec fn larger(a: nat, b: nat) -> nat {
    if a >= b {
        a
    } else {
        b
    }
}

/// How deep the lists in what an item holds are nested: 0 without a list.
pub open spec fn nesting(nodes: Seq<Node>) -> nat
    decreases nodes,
{
    if nodes.len() == 0 {
        0
    } else {
        larger(node_nesting(nodes.first()), nesting(nodes.drop_first()))
    }
}

/// How deep the lists in a node of an item are nested. A list counts one
/// more than its items; what a link holds does not count.
pub open spec fn node_nesting(node: Node) -> nat
    decreases node,
{
    match node {
        Node::Leaf(_) => 0,
        Node::Branch(Tag::Link { .. }, _) => 0,
        Node::Branch(Tag::List, inner) => 1 + items_nesting(inner),
        Node::Branch(_, inner) => nesting(inner),
    }
}

/// How deep the lists in the items of a list are nested.
pub open spec fn items_nesting(nodes: Seq<Node>) -> nat
    decreases nodes,
{
    if nodes.len() == 0 {
        0
    } else {
        larger(
            match nodes.first() {
                Node::Branch(Tag::Item, inner) => nesting(inner),
                _ => 0,
            },
            items_nesting(nodes.drop_first()),
        )
    }
}

/// How deep the lists of a node of the tree are nested: a list counts one
/// more than its items, an item as much as its parts, and any other node 0.
pub open spec fn token_depth(token: TokenView) -> nat
    decreases token,
{
    match token {
        TokenView::List { items } => 1 + tokens_depth(items),
        TokenView::ListItem { parts } => tokens_depth(parts),
        _ => 0,
    }
}

/// How deep the lists of some nodes of the tree are nested, at most.
pub open spec fn tokens_depth(tokens: Seq<TokenView>) -> nat
    decreases tokens,
{
    if tokens.len() == 0 {
        0
    } else {
        larger(token_depth(tokens.first()), tokens_depth(tokens.drop_first()))
    }
}

/// The depth of nodes after a first one.
proof fn lemma_depth_then(first: TokenView, rest: Seq<TokenView>)
    ensures
        tokens_depth(seq![first] + rest) == larger(token_depth(first), tokens_depth(rest)),
{
    let all = seq![first] + rest;
    assert(all.drop_first() == rest);
}

/// Reading an item goes through what may stand in one, and the lists that it
/// reads are nested as deep as those that stand there.
pub proof fn lemma_item_through(events: Seq<Event>, pos: int, nodes: Seq<Node>)
    requires
        holds_at(events, pos, stream(nodes)),
        item_content(nodes),
    ensures
        item_parts(events, pos).used == stream(nodes).len() + item_parts(
            events,
            pos + stream(nodes).len(),
        ).used,
        tokens_depth(item_parts(events, pos).value) == larger(
            nesting(nodes),
            tokens_depth(item_parts(events, pos + stream(nodes).len()).value),
        ),
    decreases stream(nodes).len(), 0nat,
{
    if nodes.len() > 0 {
        lemma_first_and_rest(events, pos, nodes);
        let rest = nodes.drop_first();
        assert(item_node(nodes.first()) && item_content(rest));
        match nodes.first() {
            Node::Leaf(event) => {
                assert(events[pos] == stream_of(nodes.first())[0]);
                assert(node_nesting(nodes.first()) == 0);
                lemma_item_through(events, pos + 1, rest);
                let later = item_parts(events, pos + 1).value;
                match event {
                    Event::Text(t) => lemma_depth_then(TokenView::Text(t@), later),
                    Event::Code(c) => lemma_depth_then(TokenView::Code(c@), later),
                    _ => {},
                }
            },
            Node::Branch(tag, inner) => {
                lemma_branch(events, pos, tag, inner);
                let after = pos + 2 + stream(inner).len();
                lemma_item_through(events, after, rest);
                let later = item_parts(events, after).value;
                match tag {
                    Tag::Link { dest_url } => {
                        lemma_text_through(events, pos + 1, inner, TagEnd::Link);
                        let l = link(events, pos + 1, dest_url@);
                        assert(token_depth(l.value) == 0);
                        lemma_depth_then(l.value, later);
                    },
                    Tag::List => {
                        assert(list_content(inner));
                        lemma_list_through(events, pos + 1, inner);
                        let items = list_items(events, pos + 1);
                        assert(list_items(events, pos + 1 + stream(inner).len()).used == 1);
                        assert(items.used == stream(inner).len() + 1);
                        assert(tokens_depth(
                            list_items(events, pos + 1 + stream(inner).len()).value,
                        ) == 0);
                        assert(node_nesting(nodes.first()) == 1 + items_nesting(inner));
                        lemma_depth_then(TokenView::List { items: items.value }, later);
                    },
                    _ => {
                        assert(node_nesting(nodes.first()) == nesting(inner));
                        lemma_item_through(events, pos + 1, inner);
                        assert(item_parts(events, pos + 1 + stream(inner).len()).value
                            == later);
                    },
                }
            },
        }
    }
}

/// Reading a list goes through its items, and the lists that it reads are
/// nested as deep as those that stand in the items.
pub proof fn lemma_list_through(events: Seq<Event>, pos: int, nodes: Seq<Node>)
    requires
        holds_at(events, pos, stream(nodes)),
        list_content(nodes),
    ensures
        list_items(events, pos).used == stream(nodes).len() + list_items(
            events,
            pos + stream(nodes).len(),
        ).used,
        tokens_depth(list_items(events, pos).value) == larger(
            items_nesting(nodes),
            tokens_depth(list_items(events, pos + stream(nodes).len()).value),
        ),
    decreases stream(nodes).len(), 1nat,
{
    if nodes.len() > 0 {
        lemma_first_and_rest(events, pos, nodes);
        let rest = nodes.drop_first();
        assert(list_node(nodes.first()) && list_content(rest));
        match nodes.first() {
            Node::Branch(Tag::Item, inner) => {
                lemma_branch(events, pos, Tag::Item, inner);
                let after = pos + 2 + stream(inner).len();
                lemma_item_through(events, pos + 1, inner);
                let parts = item_parts(events, pos + 1);
                assert(item_parts(events, pos + 1 + stream(inner).len()).used == 1);
                assert(parts.used == stream(inner).len() + 1);
                assert(tokens_depth(item_parts(events, pos + 1 + stream(inner).len()).value) == 0);
                lemma_list_through(events, after, rest);
                lemma_depth_then(
                    TokenView::ListItem { parts: parts.value },
                    list_items(events, after).value,
                );
            },
            _ => {},
        }
    }
}

/// Reading the headings of a table goes through nodes that hold no end of a
/// table head.
pub proof fn lemma_head_through(events: Seq<Event>, pos: int, nodes: Seq<Node>)
    requires
        holds_at(events, pos, stream(nodes)),
        free_of(nodes, TagEnd::TableHead),
    ensures
        head_cells(events, pos).used == stream(nodes).len() + head_cells(
            events,
            pos + stream(nodes).len(),
        ).used,
    decreases stream(nodes).len(),
{
    if nodes.len() > 0 {
        lemma_first_and_rest(events, pos, nodes);
        let rest = nodes.drop_first();
        assert(node_free_of(nodes.first(), TagEnd::TableHead) && free_of(rest, TagEnd::TableHead));
        match nodes.first() {
            Node::Leaf(event) => {
                assert(events[pos] == stream_of(nodes.first())[0]);
                lemma_head_through(events, pos + 1, rest);
            },
            Node::Branch(tag, inner) => {
                lemma_branch(events, pos, tag, inner);
                lemma_head_through(events, pos + 1, inner);
                lemma_head_through(events, pos + 2 + stream(inner).len(), rest);
            },
        }
    }
}

/// How many events a row takes does not depend on what was read of its
/// first cell.
proof fn lemma_row_used(events: Seq<Event>, pos: int, a: Seq<char>, b: Seq<char>)
    ensures
        row_cells(events, pos, a).used == row_cells(events, pos, b).used,
    decreases left(events, pos),
{
    if 0 <= pos < events.len() {
        match events[pos] {
            Event::End(TagEnd::TableRow) => {},
            Event::End(TagEnd::TableCell) => {},
            Event::Text(t) => lemma_row_used(events, pos + 1, a + t@, b + t@),
            Event::Code(c) => lemma_row_used(events, pos + 1, a + c@, b + c@),
            _ => lemma_row_used(events, pos + 1, a, b),
        }
    }
}

/// Reading a table row goes through nodes that hold no end of a row.
pub proof fn lemma_row_through(events: Seq<Event>, pos: int, nodes: Seq<Node>, cell: Seq<char>)
    requires
        holds_at(events, pos, stream(nodes)),
        free_of(nodes, TagEnd::TableRow),
    ensures
        row_cells(events, pos, cell).used == stream(nodes).len() + row_cells(
            events,
            pos + stream(nodes).len(),
            Seq::empty(),
        ).used,
    decreases stream(nodes).len(),
{
    if nodes.len() > 0 {
        lemma_first_and_rest(events, pos, nodes);
        let rest = nodes.drop_first();
        assert(node_free_of(nodes.first(), TagEnd::TableRow) && free_of(rest, TagEnd::TableRow));
        match nodes.first() {
            Node::Leaf(event) => {
                assert(events[pos] == stream_of(nodes.first())[0]);
                let grown = match event {
                    Event::Text(t) => cell + t@,
                    Event::Code(c) => cell + c@,
                    _ => cell,
                };
                lemma_row_through(events, pos + 1, rest, grown);
            },
            Node::Branch(tag, inner) => {
                lemma_branch(events, pos, tag, inner);
                let close = pos + 1 + stream(inner).len();
                lemma_row_through(events, pos + 1, inner, cell);
                lemma_row_through(events, close + 1, rest, Seq::empty());
            },
        }
    } else {
        lemma_row_used(events, pos, cell, Seq::empty());
    }
}

/// What may stand in a table after its head: rows that hold no end of a row.
pub open spec fn rows_content(nodes: Seq<Node>) -> bool
    decreases nodes,
{
    nodes.len() == 0 || (row_node(nodes.first()) && rows_content(nodes.drop_first()))
}

/// A table row that holds no end of a row.
pub open spec fn row_node(node: Node) -> bool {
    match node {
        Node::Branch(Tag::TableRow, inner) => free_of(inner, TagEnd::TableRow),
        _ => false,
    }
}

/// What may stand in a table: a head that holds no end of a head, or none,
/// and then rows.
pub open spec fn table_content(nodes: Seq<Node>) -> bool {
    if nodes.len() > 0 && nodes.first() is Branch && nodes.first()->Branch_0 == Tag::TableHead {
        free_of(nodes.first()->Branch_1, TagEnd::TableHead) && rows_content(nodes.drop_first())
    } else {
        rows_content(nodes)
    }
}

/// Reading the rows of a table goes through rows.
pub proof fn lemma_rows_through(events: Seq<Event>, pos: int, nodes: Seq<Node>)
    requires
        holds_at(events, pos, stream(nodes)),
        rows_content(nodes),
    ensures
        table_rows(events, pos).used == stream(nodes).len() + table_rows(
            events,
            pos + stream(nodes).len(),
        ).used,
    decreases stream(nodes).len(),
{
    if nodes.len() > 0 {
        lemma_first_and_rest(events, pos, nodes);
        let rest = nodes.drop_first();
        match nodes.first() {
            Node::Branch(Tag::TableRow, inner) => {
                lemma_branch(events, pos, Tag::TableRow, inner);
                lemma_row_through(events, pos + 1, inner, Seq::empty());
                lemma_rows_through(events, pos + 2 + stream(inner).len(), rest);
            },
            _ => {},
        }
    }
}

/// Reading a table takes what stands in it, and its end event.
pub proof fn lemma_table_through(events: Seq<Event>, pos: int, nodes: Seq<Node>)
    requires
        holds_at(events, pos, stream(nodes)),
        table_content(nodes),
        pos + stream(nodes).len() < events.len(),
        events[pos + stream(nodes).len()] == Event::End(TagEnd::Table),
    ensures
        table(events, pos).used == stream(nodes).len() + 1,
{
    if nodes.len() > 0 && nodes.first() is Branch && nodes.first()->Branch_0 == Tag::TableHead {
        let inner = nodes.first()->Branch_1;
        lemma_first_and_rest(events, pos, nodes);
        lemma_branch(events, pos, Tag::TableHead, inner);
        lemma_head_through(events, pos + 1, inner);
        lemma_rows_through(events, pos + 2 + stream(inner).len(), nodes.drop_first());
    } else {
        if nodes.len() > 0 {
            lemma_first_and_rest(events, pos, nodes);
            match nodes.first() {
                Node::Branch(Tag::TableRow, inner) => {
                    lemma_branch(events, pos, Tag::TableRow, inner);
                },
                _ => {},
            }
        }
        lemma_rows_through(events, pos, nodes);
    }
}

/// What a well-formed document is made of: atoms, and headings,
/// paragraphs, lists, tables and code blocks that hold what may stand in
/// each.
pub open spec fn document_content(nodes: Seq<Node>) -> bool
    decreases nodes,
{
    nodes.len() == 0 || (document_node(nodes.first()) && document_content(nodes.drop_first()))
}

/// A top-level node of a well-formed document.
pub open spec fn document_node(node: Node) -> bool {
    match node {
        Node::Leaf(event) => is_atom(event),
        Node::Branch(Tag::Heading(_), inner) => free_of(inner, TagEnd::Heading),
        Node::Branch(Tag::CodeBlock(_), inner) => free_of(inner, TagEnd::CodeBlock),
        Node::Branch(Tag::Paragraph, inner) => inline_content(inner),
        Node::Branch(Tag::List, inner) => list_content(inner),
        Node::Branch(Tag::Table, inner) => table_content(inner),
        Node::Branch(_, _) => false,
    }
}

/// The number of start events at the top level: one for each branch.
pub open spec fn top_level_starts(nodes: Seq<Node>) -> nat
    decreases nodes.len(),
{
    if nodes.len() == 0 {
        0
    } else if nodes.first() is Branch {
        1 + top_level_starts(nodes.drop_first())
    } else {
        top_level_starts(nodes.drop_first())
    }
}

/// The builder reads each top-level node of a well-formed document from its
/// first event to its last, and makes one node of the tree of each branch.
pub proof fn lemma_outline_through(events: Seq<Event>, pos: int, nodes: Seq<Node>)
    requires
        holds_at(events, pos, stream(nodes)),
        document_content(nodes),
    ensures
        outline(events, pos).blocks.len() == top_level_starts(nodes) + outline(
            events,
            pos + stream(nodes).len(),
        ).blocks.len(),
    decreases nodes.len(),
{
    if nodes.len() > 0 {
        lemma_first_and_rest(events, pos, nodes);
        let rest = nodes.drop_first();
        match nodes.first() {
            Node::Leaf(event) => {
                assert(events[pos] == stream_of(nodes.first())[0]);
                lemma_outline_through(events, pos + 1, rest);
            },
            Node::Branch(tag, inner) => {
                lemma_branch(events, pos, tag, inner);
                let close = pos + 1 + stream(inner).len();
                lemma_outline_through(events, close + 1, rest);
                match tag {
                    Tag::Heading(level) => {
                        lemma_text_through(events, pos + 1, inner, TagEnd::Heading);
                    },
                    Tag::CodeBlock(kind) => {
                        lemma_text_through(events, pos + 1, inner, TagEnd::CodeBlock);
                    },
                    Tag::Paragraph => {
                        lemma_paragraph_through(events, pos + 1, inner);
                    },
                    Tag::List => {
                        lemma_list_through(events, pos + 1, inner);
                    },
                    Tag::Table => {
                        lemma_table_through(events, pos + 1, inner);
                    },
                    _ => {},
                }
            },
        }
    }
}

/// Of a well-formed stream, in which every start event has its end event and
/// each top-level node holds what may stand in it, the builder makes one
/// top-level node for each top-level start event.
pub proof fn lemma_one_token_per_start(nodes: Seq<Node>)
    requires
        document_content(nodes),
    ensures
        outline(stream(nodes), 0).blocks.len() == top_level_starts(nodes),
{
    let events = stream(nodes);
    lemma_outline_through(events, 0, nodes);
}

/// A list comes out nested as deep as it went in: the list that the builder
/// makes of a well-formed list is one level deeper than the lists in its
/// items.
pub proof fn lemma_list_depth_kept(items: Seq<Node>)
    requires
        list_content(items),
    ensures
        outline(stream_of(Node::Branch(Tag::List, items)), 0).blocks.len() == 1,
        outline(stream_of(Node::Branch(Tag::List, items)), 0).blocks[0] matches Block::Node(token)
            && token_depth(token) == 1 + items_nesting(items),
{
    let events = stream_of(Node::Branch(Tag::List, items));
    lemma_branch(events, 0, Tag::List, items);
    lemma_list_through(events, 1, items);
    let read = list(events, 1);
    assert(read.used == stream(items).len() + 1);
    assert(outline(events, 1 + read.used as int).blocks.len() == 0);
}

} // verus!
