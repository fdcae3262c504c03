use syntect::highlighting::ThemeSet;
use themark::builder::{
    build, take_heading, take_image, take_link, take_list, take_list_items, take_paragraph,
    take_table, take_table_headings, take_table_row, Cursor,
};
use themark::event::{CodeBlockKind, Event, Tag, TagEnd};
use themark::syntax::{Catalog, CodeLine, CodeToken};
use themark::token::{InnerHeadingLevel, Token};

fn catalog() -> Catalog {
    let themes = ThemeSet::load_defaults();
    Catalog::with_default_syntaxes(themes.themes["base16-ocean.dark"].clone())
}

fn text(s: &str) -> Event {
    Event::Text(s.to_string())
}

fn code(s: &str) -> Event {
    Event::Code(s.to_string())
}

fn start(tag: Tag) -> Event {
    Event::Start(tag)
}

fn end(tag: TagEnd) -> Event {
    Event::End(tag)
}

fn level(n: u8) -> InnerHeadingLevel {
    InnerHeadingLevel::new(n).unwrap()
}

fn link(url: &str) -> Tag {
    Tag::Link { dest_url: url.to_string() }
}

fn image(url: &str) -> Tag {
    Tag::Image { dest_url: url.to_string() }
}

fn t(s: &str) -> Token {
    Token::Text(s.to_string())
}

fn strings(items: &[&str]) -> Vec<String> {
    items.iter().map(|s| s.to_string()).collect()
}

fn cell(s: &str) -> Vec<Event> {
    vec![start(Tag::TableCell), text(s), end(TagEnd::TableCell)]
}

fn row(cells: &[&str]) -> Vec<Event> {
    let mut events = vec![start(Tag::TableRow)];
    for c in cells {
        events.extend(cell(c));
    }
    events.push(end(TagEnd::TableRow));
    events
}

fn table(headings: &[&str], rows: &[&[&str]]) -> Vec<Event> {
    let mut events = vec![start(Tag::Table), start(Tag::TableHead)];
    for h in headings {
        events.extend(cell(h));
    }
    events.push(end(TagEnd::TableHead));
    for r in rows {
        events.extend(row(r));
    }
    events.push(end(TagEnd::Table));
    events
}

fn nested_list(depth: usize) -> Vec<Event> {
    let mut events = vec![start(Tag::List), start(Tag::Item), text("x")];
    if depth > 1 {
        events.extend(nested_list(depth - 1));
    }
    events.push(end(TagEnd::Item));
    events.push(end(TagEnd::List));
    events
}

fn list_depth(token: &Token) -> usize {
    match token {
        Token::List { items } => 1 + items.iter().map(list_depth).max().unwrap_or(0),
        Token::ListItem { parts } => parts.iter().map(list_depth).max().unwrap_or(0),
        _ => 0,
    }
}

#[test]
fn heading_then_paragraph_with_link() {
    let events = vec![
        start(Tag::Heading(level(1))),
        text("Title"),
        end(TagEnd::Heading),
        start(Tag::Paragraph),
        text("Hello "),
        start(link("http://x")),
        text("link"),
        end(TagEnd::Link),
        end(TagEnd::Paragraph),
    ];
    let document = build(&events, &catalog());
    assert_eq!(
        document.tokens,
        vec![
            Token::Heading { level: level(1), content: "Title".to_string() },
            Token::Paragraph {
                parts: vec![
                    t("Hello "),
                    Token::Link { uri: "http://x".to_string(), label: "link".to_string() },
                ],
            },
        ]
    );
    assert_eq!(document.dropped_cells, 0);
}

#[test]
fn table_is_stored_by_columns() {
    let events = table(&["A", "B"], &[&["1", "2"]]);
    let document = build(&events, &catalog());
    assert_eq!(
        document.tokens,
        vec![Token::Table {
            headings: strings(&["A", "B"]),
            cols: vec![strings(&["1"]), strings(&["2"])],
        }]
    );
    assert_eq!(document.dropped_cells, 0);
}

#[test]
fn table_columns_follow_the_rows() {
    let events = table(&["A", "B", "C"], &[&["1", "2", "3"], &["4", "5", "6"]]);
    let document = build(&events, &catalog());
    match &document.tokens[0] {
        Token::Table { headings, cols } => {
            assert_eq!(cols.len(), headings.len());
            assert_eq!(cols[0], strings(&["1", "4"]));
            assert_eq!(cols[1], strings(&["2", "5"]));
            assert_eq!(cols[2], strings(&["3", "6"]));
        }
        other => panic!("not a table: {:?}", other),
    }
}

#[test]
fn cells_beyond_the_headings_are_dropped_and_counted() {
    let events = table(&["A", "B"], &[&["1", "2", "3", "4"], &["5", "6"], &["7", "8", "9"]]);
    let document = build(&events, &catalog());
    assert_eq!(
        document.tokens,
        vec![Token::Table {
            headings: strings(&["A", "B"]),
            cols: vec![strings(&["1", "5", "7"]), strings(&["2", "6", "8"])],
        }]
    );
    assert_eq!(document.dropped_cells, 3);
}

#[test]
fn short_row_leaves_later_columns_alone() {
    let events = table(&["A", "B"], &[&["1"], &["2", "3"]]);
    let document = build(&events, &catalog());
    assert_eq!(
        document.tokens,
        vec![Token::Table {
            headings: strings(&["A", "B"]),
            cols: vec![strings(&["1", "2"]), strings(&["3"])],
        }]
    );
    assert_eq!(document.dropped_cells, 0);
}

#[test]
fn table_cell_joins_text_and_code() {
    let mut events = vec![start(Tag::Table), start(Tag::TableHead)];
    events.extend(cell("H"));
    events.push(end(TagEnd::TableHead));
    events.extend(vec![
        start(Tag::TableRow),
        start(Tag::TableCell),
        text("a "),
        code("b"),
        text(" c"),
        end(TagEnd::TableCell),
        end(TagEnd::TableRow),
        end(TagEnd::Table),
    ]);
    let document = build(&events, &catalog());
    assert_eq!(
        document.tokens,
        vec![Token::Table { headings: strings(&["H"]), cols: vec![strings(&["a b c"])] }]
    );
}

#[test]
fn table_without_head_has_no_columns() {
    let mut events = vec![start(Tag::Table)];
    events.extend(row(&["1", "2"]));
    events.push(end(TagEnd::Table));
    events.push(start(Tag::Paragraph));
    events.push(text("after"));
    events.push(end(TagEnd::Paragraph));
    let document = build(&events, &catalog());
    assert_eq!(
        document.tokens,
        vec![
            Token::Table { headings: vec![], cols: vec![] },
            Token::Paragraph { parts: vec![t("after")] },
        ]
    );
    assert_eq!(document.dropped_cells, 2);
}

#[test]
fn nested_lists_keep_their_depth() {
    for depth in 1..6 {
        let document = build(&nested_list(depth), &catalog());
        assert_eq!(document.tokens.len(), 1);
        assert_eq!(list_depth(&document.tokens[0]), depth);
    }
}

#[test]
fn list_in_item_in_list() {
    let document = build(&nested_list(2), &catalog());
    assert_eq!(
        document.tokens,
        vec![Token::List {
            items: vec![Token::ListItem {
                parts: vec![
                    t("x"),
                    Token::List { items: vec![Token::ListItem { parts: vec![t("x")] }] },
                ],
            }],
        }]
    );
}

#[test]
fn list_items_hold_text_code_and_links() {
    let events = vec![
        start(Tag::List),
        start(Tag::Item),
        start(Tag::Paragraph),
        text("a"),
        code("b"),
        start(link("u")),
        text("l1"),
        start(Tag::Other),
        text("l2"),
        end(TagEnd::Other),
        end(TagEnd::Link),
        end(TagEnd::Paragraph),
        end(TagEnd::Item),
        start(Tag::Item),
        text("c"),
        end(TagEnd::Item),
        end(TagEnd::List),
    ];
    let document = build(&events, &catalog());
    assert_eq!(
        document.tokens,
        vec![Token::List {
            items: vec![
                Token::ListItem {
                    parts: vec![
                        t("a"),
                        Token::Code("b".to_string()),
                        Token::Link { uri: "u".to_string(), label: "l1l2".to_string() },
                    ],
                },
                Token::ListItem { parts: vec![t("c")] },
            ],
        }]
    );
}

#[test]
fn one_token_for_each_top_level_start() {
    let mut events = vec![
        start(Tag::Heading(level(2))),
        text("h"),
        end(TagEnd::Heading),
        Event::Other,
        start(Tag::Paragraph),
        text("p"),
        end(TagEnd::Paragraph),
    ];
    events.extend(nested_list(3));
    events.extend(table(&["A"], &[&["1"]]));
    events.extend(vec![
        start(Tag::CodeBlock(CodeBlockKind::Indented)),
        text("x\n"),
        end(TagEnd::CodeBlock),
    ]);
    let document = build(&events, &catalog());
    assert_eq!(document.tokens.len(), 5);
    assert!(matches!(document.tokens[0], Token::Heading { .. }));
    assert!(matches!(document.tokens[1], Token::Paragraph { .. }));
    assert!(matches!(document.tokens[2], Token::List { .. }));
    assert!(matches!(document.tokens[3], Token::Table { .. }));
    assert!(matches!(document.tokens[4], Token::CodeBlock { .. }));
}

#[test]
fn stray_top_level_events_are_passed_over() {
    let events = vec![
        end(TagEnd::Paragraph),
        text("loose"),
        code("c"),
        start(Tag::Item),
        end(TagEnd::Link),
        Event::Other,
        start(Tag::Other),
        end(TagEnd::Other),
    ];
    let document = build(&events, &catalog());
    assert_eq!(document.tokens, vec![]);
}

#[test]
fn empty_stream_gives_no_tokens() {
    let document = build(&[], &catalog());
    assert_eq!(document.tokens, vec![]);
    assert_eq!(document.dropped_cells, 0);
}

#[test]
fn missing_end_gives_the_partial_node() {
    let cat = catalog();
    let heading = build(&[start(Tag::Heading(level(3))), text("a"), text("b")], &cat);
    assert_eq!(
        heading.tokens,
        vec![Token::Heading { level: level(3), content: "ab".to_string() }]
    );
    let paragraph = build(&[start(Tag::Paragraph), text("a"), start(link("u")), text("l")], &cat);
    assert_eq!(
        paragraph.tokens,
        vec![Token::Paragraph {
            parts: vec![t("a"), Token::Link { uri: "u".to_string(), label: "l".to_string() }],
        }]
    );
    let list = build(&[start(Tag::List), start(Tag::Item), text("a")], &cat);
    assert_eq!(
        list.tokens,
        vec![Token::List { items: vec![Token::ListItem { parts: vec![t("a")] }] }]
    );
    let mut events = vec![start(Tag::Table), start(Tag::TableHead)];
    events.extend(cell("A"));
    let table = build(&events, &cat);
    assert_eq!(table.tokens, vec![Token::Table { headings: strings(&["A"]), cols: vec![vec![]] }]);
    let block = build(
        &[start(Tag::CodeBlock(CodeBlockKind::Fenced("nope-lang".to_string()))), text("a\n")],
        &cat,
    );
    assert_eq!(block.tokens.len(), 1);
}

#[test]
fn heading_keeps_text_only() {
    let events = vec![
        start(Tag::Heading(level(6))),
        text("a"),
        code("dropped"),
        start(link("u")),
        text("b"),
        end(TagEnd::Link),
        end(TagEnd::Heading),
    ];
    let document = build(&events, &catalog());
    assert_eq!(
        document.tokens,
        vec![Token::Heading { level: level(6), content: "ab".to_string() }]
    );
}

#[test]
fn paragraph_with_image() {
    let events = vec![
        start(Tag::Paragraph),
        start(image("pic.png")),
        text("alt "),
        text("text"),
        end(TagEnd::Image),
        code("c"),
        end(TagEnd::Paragraph),
    ];
    let document = build(&events, &catalog());
    assert_eq!(
        document.tokens,
        vec![Token::Paragraph {
            parts: vec![
                Token::Image { uri: "pic.png".to_string(), text: "alt text".to_string() },
                Token::Code("c".to_string()),
            ],
        }]
    );
}

#[test]
fn fenced_block_without_grammar_is_plain() {
    let events = vec![
        start(Tag::CodeBlock(CodeBlockKind::Fenced("nope-lang".to_string()))),
        text("a\n"),
        text("b\n"),
        end(TagEnd::CodeBlock),
    ];
    let document = build(&events, &catalog());
    let plain = |s: &str| CodeLine {
        parts: vec![CodeToken { source: s.to_string(), fg: (255, 255, 255), bold: false }],
    };
    assert_eq!(
        document.tokens,
        vec![Token::CodeBlock {
            content: vec![plain("a\n"), plain("b\n")],
            language: "nope-lang".to_string(),
        }]
    );
}

#[test]
fn indented_block_has_empty_language() {
    let events = vec![
        start(Tag::CodeBlock(CodeBlockKind::Indented)),
        text("  x = 1\n"),
        end(TagEnd::CodeBlock),
    ];
    let document = build(&events, &catalog());
    match &document.tokens[0] {
        Token::CodeBlock { content, language } => {
            assert_eq!(language, "");
            assert_eq!(content.len(), 1);
            assert_eq!(content[0].parts.len(), 1);
            assert_eq!(content[0].parts[0].source, "  x = 1\n");
        }
        other => panic!("not a code block: {:?}", other),
    }
}

#[test]
fn fenced_block_with_grammar_spells_its_text() {
    let events = vec![
        start(Tag::CodeBlock(CodeBlockKind::Fenced("rs".to_string()))),
        text("fn f() {}\n"),
        text("// c\n"),
        end(TagEnd::CodeBlock),
    ];
    let document = build(&events, &catalog());
    match &document.tokens[0] {
        Token::CodeBlock { content, language } => {
            assert_eq!(language, "rs");
            assert_eq!(content.len(), 2);
            let spelled: String =
                content.iter().flat_map(|l| l.parts.iter().map(|p| p.source.as_str())).collect();
            assert_eq!(spelled, "fn f() {}\n// c\n");
            assert!(content[0].parts.len() > 1);
        }
        other => panic!("not a code block: {:?}", other),
    }
}

#[test]
fn sub_routines_stop_after_their_end_event() {
    let events = vec![text("a"), end(TagEnd::Heading), text("rest")];
    let mut cursor = Cursor::new(&events);
    let heading = take_heading(&mut cursor, level(4));
    assert_eq!(heading, Token::Heading { level: level(4), content: "a".to_string() });
    assert_eq!(cursor.next(), Some(&text("rest")));
    assert_eq!(cursor.next(), None);

    let events = vec![text("l"), end(TagEnd::Link), text("i"), end(TagEnd::Image), text("rest")];
    let mut cursor = Cursor::new(&events);
    assert_eq!(
        take_link(&mut cursor, "u"),
        Token::Link { uri: "u".to_string(), label: "l".to_string() }
    );
    assert_eq!(
        take_image(&mut cursor, "v"),
        Token::Image { uri: "v".to_string(), text: "i".to_string() }
    );
    assert_eq!(cursor.next(), Some(&text("rest")));

    let events = vec![text("p"), end(TagEnd::Paragraph), text("rest")];
    let mut cursor = Cursor::new(&events);
    assert_eq!(take_paragraph(&mut cursor), Token::Paragraph { parts: vec![t("p")] });
    assert_eq!(cursor.next(), Some(&text("rest")));
}

#[test]
fn list_ends_at_the_first_event_that_starts_no_item() {
    let events = vec![
        start(Tag::Item),
        text("a"),
        end(TagEnd::Item),
        end(TagEnd::List),
        text("rest"),
    ];
    let mut cursor = Cursor::new(&events);
    assert_eq!(
        take_list(&mut cursor),
        Token::List { items: vec![Token::ListItem { parts: vec![t("a")] }] }
    );
    assert_eq!(cursor.next(), Some(&text("rest")));

    let events = vec![text("a"), end(TagEnd::Item), text("rest")];
    let mut cursor = Cursor::new(&events);
    assert_eq!(take_list_items(&mut cursor), Token::ListItem { parts: vec![t("a")] });
    assert_eq!(cursor.next(), Some(&text("rest")));
}

#[test]
fn table_parts_read_their_own_events() {
    let mut events = cell("A");
    events.extend(cell("B"));
    events.push(end(TagEnd::TableHead));
    events.push(text("rest"));
    let mut cursor = Cursor::new(&events);
    assert_eq!(take_table_headings(&mut cursor), strings(&["A", "B"]));
    assert_eq!(cursor.next(), Some(&text("rest")));

    let mut events = cell("1");
    events.extend(cell("2"));
    events.extend(cell("3"));
    events.push(end(TagEnd::TableRow));
    events.push(text("rest"));
    let mut cursor = Cursor::new(&events);
    let mut cols = vec![strings(&["x"]), vec![]];
    assert_eq!(take_table_row(&mut cursor, &mut cols), 1);
    assert_eq!(cols, vec![strings(&["x", "1"]), strings(&["2"])]);
    assert_eq!(cursor.next(), Some(&text("rest")));

    let events = table(&["A"], &[&["1", "2"]]);
    let mut cursor = Cursor::new(&events[1..]);
    let (token, dropped) = take_table(&mut cursor);
    assert_eq!(token, Token::Table { headings: strings(&["A"]), cols: vec![strings(&["1"])] });
    assert_eq!(dropped, 1);
    assert_eq!(cursor.next(), None);
}

#[test]
fn table_that_ends_at_once_is_empty() {
    let events = vec![
        start(Tag::Table),
        end(TagEnd::Table),
        start(Tag::Paragraph),
        text("after"),
        end(TagEnd::Paragraph),
    ];
    let document = build(&events, &catalog());
    assert_eq!(
        document.tokens,
        vec![
            Token::Table { headings: vec![], cols: vec![] },
            Token::Paragraph { parts: vec![t("after")] },
        ]
    );
}

#[test]
fn heading_levels_are_one_to_six() {
    assert_eq!(InnerHeadingLevel::new(0), None);
    assert_eq!(InnerHeadingLevel::new(7), None);
    for n in 1..=6 {
        assert_eq!(InnerHeadingLevel::new(n).unwrap().get(), n);
    }
}
