use syntect::highlighting::ThemeSet;
use themark::syntax::{highlight_code, line_from_runs, lines_of, plain_code, Catalog, CodeLine, CodeToken};

fn catalog() -> Catalog {
    let themes = ThemeSet::load_defaults();
    Catalog::with_default_syntaxes(themes.themes["base16-ocean.dark"].clone())
}

fn plain(source: &str) -> CodeLine {
    CodeLine {
        parts: vec![CodeToken {
            source: source.to_string(),
            fg: (255, 255, 255),
            bold: false,
        }],
    }
}

fn spelled(lines: &[CodeLine]) -> String {
    lines
        .iter()
        .flat_map(|l| l.parts.iter().map(|t| t.source.as_str()))
        .collect()
}

#[test]
fn unknown_language_gives_plain_lines() {
    let lines = highlight_code("a\nb\n".to_string(), "nope-lang", &catalog());
    assert_eq!(lines, vec![plain("a\n"), plain("b\n")]);
}

#[test]
fn empty_language_gives_plain_lines() {
    let lines = highlight_code("let x = 1;\n".to_string(), "", &catalog());
    assert_eq!(lines, vec![plain("let x = 1;\n")]);
}

#[test]
fn lines_keep_their_terminators() {
    assert_eq!(lines_of("a\nb"), vec!["a\n".to_string(), "b".to_string()]);
    assert_eq!(lines_of("a\r\nb\n"), vec!["a\r\n".to_string(), "b\n".to_string()]);
    assert_eq!(lines_of("\n\n"), vec!["\n".to_string(), "\n".to_string()]);
    assert_eq!(lines_of(""), Vec::<String>::new());
    assert_eq!(lines_of("é\nü"), vec!["é\n".to_string(), "ü".to_string()]);
}

#[test]
fn plain_code_of_empty_text_has_no_lines() {
    assert_eq!(plain_code(""), Vec::<CodeLine>::new());
}

#[test]
fn fallback_is_the_same_each_time() {
    let c = catalog();
    let first = highlight_code("x\ny".to_string(), "nope-lang", &c);
    let second = highlight_code("x\ny".to_string(), "nope-lang", &c);
    assert_eq!(first, second);
    assert_eq!(first, plain_code("x\ny"));
}

#[test]
fn known_language_is_styled_and_spells_the_text() {
    let code = "fn main() {\n    /* a\n    b */ let x = \"s\";\n}\n";
    let lines = highlight_code(code.to_string(), "rs", &catalog());
    assert_eq!(lines.len(), 4);
    assert_eq!(spelled(&lines), code);
    assert!(lines[0].parts.len() > 1);
    assert!(lines.iter().any(|l| l.parts.iter().any(|t| t.fg != (255, 255, 255))));
    let per_line: Vec<String> = lines.iter().map(|l| spelled(std::slice::from_ref(l))).collect();
    assert_eq!(per_line, lines_of(code));
}

#[test]
fn tokenizer_state_carries_across_lines() {
    let c = catalog();
    let inside = highlight_code("/* a\nlet b = 1;\n*/\n".to_string(), "rs", &c);
    let alone = highlight_code("let b = 1;\n".to_string(), "rs", &c);
    assert_ne!(inside[1], alone[0]);
}

#[test]
fn text_without_final_newline_is_kept() {
    let code = "let a = 1;\nlet b = 2;";
    let lines = highlight_code(code.to_string(), "rs", &catalog());
    assert_eq!(lines.len(), 2);
    assert_eq!(spelled(&lines), code);
}

#[test]
fn runs_that_spell_the_line_are_kept() {
    let runs = vec![
        CodeToken { source: "ab".to_string(), fg: (1, 2, 3), bold: true },
        CodeToken { source: "c\n".to_string(), fg: (4, 5, 6), bold: false },
    ];
    let line = line_from_runs("abc\n".to_string(), Some(runs));
    assert_eq!(line.parts.len(), 2);
    assert_eq!(line.parts[0].fg, (1, 2, 3));
    assert!(line.parts[0].bold);
    assert_eq!(line.parts[1].source, "c\n");
}

#[test]
fn runs_that_lose_text_give_way_to_the_plain_line() {
    let runs = vec![CodeToken { source: "ab".to_string(), fg: (1, 2, 3), bold: true }];
    assert_eq!(line_from_runs("abc\n".to_string(), Some(runs)), plain("abc\n"));
    assert_eq!(line_from_runs("abc\n".to_string(), Some(vec![])), plain("abc\n"));
    assert_eq!(line_from_runs("abc\n".to_string(), None), plain("abc\n"));
}
