use syntect::highlighting::ThemeSet;
use themark::markdown::parse;
use themark::syntax::{Catalog, CodeLine, CodeToken};
use themark::token::{InnerHeadingLevel, Token};

fn catalog() -> Catalog {
    let themes = ThemeSet::load_defaults();
    Catalog::with_default_syntaxes(themes.themes["base16-ocean.dark"].clone())
}

fn t(s: &str) -> Token {
    Token::Text(s.to_string())
}

fn strings(items: &[&str]) -> Vec<String> {
    items.iter().map(|s| s.to_string()).collect()
}

#[test]
fn title_and_paragraph() {
    let document = parse("# Title\n\nHello [link](http://x)\n", &catalog());
    assert_eq!(
        document.tokens,
        vec![
            Token::Heading {
                level: InnerHeadingLevel::new(1).unwrap(),
                content: "Title".to_string(),
            },
            Token::Paragraph {
                parts: vec![
                    t("Hello "),
                    Token::Link { uri: "http://x".to_string(), label: "link".to_string() },
                ],
            },
        ]
    );
    assert_eq!(document.dropped_cells, 0);
}

#[test]
fn all_heading_levels() {
    let document = parse("# a\n## b\n### c\n#### d\n##### e\n###### f\n", &catalog());
    let levels: Vec<u8> = document
        .tokens
        .iter()
        .map(|token| match token {
            Token::Heading { level, .. } => level.get(),
            _ => 0,
        })
        .collect();
    assert_eq!(levels, vec![1, 2, 3, 4, 5, 6]);
}

#[test]
fn table_text() {
    let document = parse("| A | B |\n|---|---|\n| 1 | 2 |\n", &catalog());
    assert_eq!(
        document.tokens,
        vec![Token::Table {
            headings: strings(&["A", "B"]),
            cols: vec![strings(&["1"]), strings(&["2"])],
        }]
    );
    assert_eq!(document.dropped_cells, 0);
}

#[test]
fn fenced_block_without_grammar() {
    let document = parse("```nope-lang\na\nb\n```\n", &catalog());
    let plain = |s: &str| CodeLine {
        parts: vec![CodeToken { source: s.to_string(), fg: (255, 255, 255), bold: false }],
    };
    assert_eq!(
        document.tokens,
        vec![Token::CodeBlock {
            content: vec![plain("a\n"), plain("b\n")],
            language: "nope-lang".to_string(),
        }]
    );
}

#[test]
fn indented_block() {
    let document = parse("    x = 1\n", &catalog());
    match &document.tokens[0] {
        Token::CodeBlock { content, language } => {
            assert_eq!(language, "");
            assert_eq!(content.len(), 1);
            assert_eq!(content[0].parts[0].source, "x = 1\n");
        }
        other => panic!("not a code block: {:?}", other),
    }
}

#[test]
fn nested_list_text() {
    let document = parse("- a\n  - b\n    - c\n- d\n", &catalog());
    assert_eq!(
        document.tokens,
        vec![Token::List {
            items: vec![
                Token::ListItem {
                    parts: vec![
                        t("a"),
                        Token::List {
                            items: vec![Token::ListItem {
                                parts: vec![
                                    t("b"),
                                    Token::List {
                                        items: vec![Token::ListItem { parts: vec![t("c")] }],
                                    },
                                ],
                            }],
                        },
                    ],
                },
                Token::ListItem { parts: vec![t("d")] },
            ],
        }]
    );
}

#[test]
fn image_and_code_span() {
    let document = parse("see ![alt](pic.png) and `x`\n", &catalog());
    assert_eq!(
        document.tokens,
        vec![Token::Paragraph {
            parts: vec![
                t("see "),
                Token::Image { uri: "pic.png".to_string(), text: "alt".to_string() },
                t(" and "),
                Token::Code("x".to_string()),
            ],
        }]
    );
}

#[test]
fn empty_text_has_no_tokens() {
    let document = parse("", &catalog());
    assert_eq!(document.tokens, vec![]);
}

#[test]
fn one_token_for_each_block() {
    let text = "# h\n\np\n\n- a\n- b\n\n| A |\n|---|\n| 1 |\n\n```rs\nfn f() {}\n```\n";
    let document = parse(text, &catalog());
    assert_eq!(document.tokens.len(), 5);
}
