use syntect::highlighting::ThemeSet;
use themark::dashboard::{Dashboard, DashboardState, OVERFLOW_OFFSET};
use themark::document::MarkdownDocument;
use themark::markdown::parse;
use themark::syntax::{highlight_code, Catalog, CodeLine, CodeToken};
use themark::token::{InnerHeadingLevel, Token};
use themark::viewer::{Key, Scroll, Viewer, ViewerState};

fn catalog() -> Catalog {
    let themes = ThemeSet::load_defaults();
    Catalog::with_default_syntaxes(themes.themes["base16-ocean.dark"].clone())
}

fn documents(count: usize) -> Vec<MarkdownDocument> {
    (0..count)
        .map(|i| {
            MarkdownDocument::new(format!("{i}.md"), format!("/docs/{i}.md"), "1.00 KB".to_string())
        })
        .collect()
}

#[test]
fn default_syntaxes_know_rust_but_not_everything() {
    let c = catalog();
    let rust = highlight_code("fn f() {}\n".to_string(), "rs", &c);
    assert!(rust[0].parts.len() > 1);
    let upper = highlight_code("fn f() {}\n".to_string(), "RS", &c);
    assert!(upper[0].parts.len() > 1);
    let unknown = highlight_code("fn f() {}\n".to_string(), "nope-lang", &c);
    assert_eq!(unknown[0].parts.len(), 1);
}

#[test]
fn catalog_tells_which_tags_it_knows() {
    let c = catalog();
    assert!(c.knows("rs"));
    assert!(c.knows("RS"));
    assert!(c.knows("py"));
    assert!(!c.knows("nope-lang"));
    assert!(!c.knows(""));
}

#[test]
fn dashboard_starts_on_the_first_document() {
    let state = DashboardState::new(documents(3));
    assert_eq!(state.selected_idx, 0);
    assert_eq!(state.navigate_to, "viewer");
    assert_eq!(state.documents.len(), 3);
    let empty = DashboardState::default();
    assert_eq!(empty.selected_idx, 0);
    assert_eq!(empty.navigate_to, "viewer");
    assert!(empty.documents.is_empty());
}

#[test]
fn selection_moves_within_the_list() {
    let mut state = DashboardState::new(documents(3));
    assert_eq!(Dashboard::on_key(&mut state, Key::Char('k')), None);
    assert_eq!(state.selected_idx, 0);
    assert_eq!(Dashboard::on_key(&mut state, Key::Char('j')), None);
    assert_eq!(state.selected_idx, 1);
    assert_eq!(Dashboard::on_key(&mut state, Key::Down), None);
    assert_eq!(state.selected_idx, 2);
    assert_eq!(Dashboard::on_key(&mut state, Key::Down), None);
    assert_eq!(state.selected_idx, 2);
    assert_eq!(Dashboard::on_key(&mut state, Key::Up), None);
    assert_eq!(state.selected_idx, 1);
    assert_eq!(Dashboard::on_key(&mut state, Key::Other), None);
    assert_eq!(state.selected_idx, 1);
    assert_eq!(state.documents.len(), 3);
}

#[test]
fn enter_and_space_open_the_selected_document() {
    let mut state = DashboardState::new(documents(3));
    Dashboard::on_key(&mut state, Key::Down);
    assert_eq!(Dashboard::on_key(&mut state, Key::Enter), Some("/docs/1.md".to_string()));
    assert_eq!(Dashboard::on_key(&mut state, Key::Char(' ')), Some("/docs/1.md".to_string()));
    assert_eq!(state.selected_idx, 1);
    let mut single = DashboardState::new(documents(1));
    assert_eq!(Dashboard::on_key(&mut single, Key::Down), None);
    assert_eq!(single.selected_idx, 0);
}

#[test]
fn list_follows_the_selection() {
    assert_eq!(OVERFLOW_OFFSET, 8);
    assert_eq!(Dashboard::follow(5, 20, 0), Scroll::Stay);
    assert_eq!(Dashboard::follow(12, 20, 0), Scroll::Stay);
    assert_eq!(Dashboard::follow(13, 20, 0), Scroll::DownBy(1));
    assert_eq!(Dashboard::follow(30, 20, 10), Scroll::DownBy(8));
    assert_eq!(Dashboard::follow(0, 20, 0), Scroll::UpBy(0));
    assert_eq!(Dashboard::follow(3, 20, 7), Scroll::UpBy(4));
    assert_eq!(Dashboard::follow(1, 8, 0), Scroll::DownBy(1));
}

#[test]
fn viewer_takes_in_a_document_or_an_error() {
    let c = catalog();
    let mut state = ViewerState::new(vec![]);
    Viewer::message(&mut state, Some("# a\n\nb\n"), &c);
    assert!(!state.loading_document);
    assert!(!state.has_error);
    assert_eq!(state.total_tokens, 2);
    assert_eq!(state.tokens, parse("# a\n\nb\n", &c).tokens);
    Viewer::message(&mut state, None, &c);
    assert!(state.loading_document);
    assert!(state.has_error);
    assert_eq!(state.total_tokens, 2);
    assert_eq!(state.tokens.len(), 2);
    Viewer::message(&mut state, Some("c\n"), &c);
    assert!(!state.loading_document);
    assert!(state.has_error);
    assert_eq!(state.total_tokens, 1);
}

#[test]
fn tokens_name_their_kind() {
    let level = InnerHeadingLevel::new(2).unwrap();
    let named = vec![
        (Token::Text(String::new()), "text"),
        (Token::Paragraph { parts: vec![] }, "paragraph"),
        (Token::Image { uri: String::new(), text: String::new() }, "image"),
        (Token::Table { headings: vec![], cols: vec![] }, "table"),
        (Token::Heading { level, content: String::new() }, "heading"),
        (Token::List { items: vec![] }, "list"),
        (Token::Link { uri: String::new(), label: String::new() }, "link"),
        (Token::Code(String::new()), "inline_code"),
        (Token::CodeBlock { content: vec![], language: String::new() }, "code_block"),
        (Token::ListItem { parts: vec![] }, "list_item"),
    ];
    for (token, name) in named {
        assert_eq!(token.kind(), name);
    }
}

#[test]
fn conversions_keep_their_values() {
    let token = CodeToken::from("x\n".to_string());
    assert_eq!(token, CodeToken { source: "x\n".to_string(), fg: (255, 255, 255), bold: false });
    assert_eq!(token, CodeToken::plain("x\n".to_string()));
    let styled = CodeToken::styled("y".to_string(), (1, 2, 3), true);
    assert_eq!(styled, CodeToken { source: "y".to_string(), fg: (1, 2, 3), bold: true });
    let line = CodeLine::from(token);
    assert_eq!(line.parts.len(), 1);
    let line = CodeLine::from(vec![styled, CodeToken::plain("z".to_string())]);
    assert_eq!(line.parts.len(), 2);
    assert_eq!(line.parts[0].fg, (1, 2, 3));
    assert_eq!(u8::from(InnerHeadingLevel::new(5).unwrap()), 5);
}
