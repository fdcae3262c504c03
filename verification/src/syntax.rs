//! Code highlighting: a code block's text becomes styled lines.
//!
//! The text is cut into lines here. A grammar of `syntect` cuts each line
//! into styled runs; what it hands back is checked against the line, so that
//! the lines of a block always spell the block's text.

use syntect::easy::HighlightLines;
use syntect::highlighting::{FontStyle, Theme};
use syntect::parsing::{SyntaxReference, SyntaxSet};
use vstd::prelude::*;
use vstd::std_specs::convert::FromSpecImpl;

verus! {

/// A run of one line's text in one style.
#[derive(Debug, PartialEq)]
pub struct CodeToken {
    pub source: String,
    pub fg: (u8, u8, u8),
    pub bold: bool,
}

/// The styled runs of one source line, terminator included.
#[derive(Debug, PartialEq)]
pub struct CodeLine {
    pub parts: Vec<CodeToken>,
}

/// What a `CodeToken` stands for.
pub struct CodeTokenView {
    pub source: Seq<char>,
    pub fg: (u8, u8, u8),
    pub bold: bool,
}

impl View for CodeToken {
    type V = CodeTokenView;

    open spec fn view(&self) -> CodeTokenView {
        CodeTokenView { source: self.source@, fg: self.fg, bold: self.bold }
    }
}

impl View for CodeLine {
    type V = Seq<CodeTokenView>;

    open spec fn view(&self) -> Seq<CodeTokenView> {
        runs_view(self.parts@)
    }
}

/// What a sequence of `CodeToken`s stands for.
pub open spec fn runs_view(runs: Seq<CodeToken>) -> Seq<CodeTokenView> {
    runs.map_values(|t: CodeToken| t@)
}

/// What a sequence of `CodeLine`s stands for.
pub open spec fn lines_view(lines: Seq<CodeLine>) -> Seq<Seq<CodeTokenView>> {
    lines.map_values(|l: CodeLine| l@)
}

/// What a sequence of strings stands for.
pub open spec fn texts(lines: Seq<String>) -> Seq<Seq<char>> {
    lines.map_values(|l: String| l@)
}

/// The foreground of text that no grammar styled: white.
pub open spec fn default_fg() -> (u8, u8, u8) {
    (255u8, 255u8, 255u8)
}

/// The run that shows `source` in the default style.
pub open spec fn plain_token(source: Seq<char>) -> CodeTokenView {
    CodeTokenView { source, fg: default_fg(), bold: false }
}

/// The text of a line: its runs' sources, one after the other.
pub open spec fn line_text(line: Seq<CodeTokenView>) -> Seq<char> {
    line.map_values(|t: CodeTokenView| t.source).flatten()
}

/// The text of a block: its lines' texts, one after the other.
pub open spec fn block_text(lines: Seq<Seq<CodeTokenView>>) -> Seq<char> {
    lines.map_values(|l: Seq<CodeTokenView>| line_text(l)).flatten()
}

/// The length of the first line of `text`, its `'\n'` included if it has one.
pub open spec fn first_line_len(text: Seq<char>) -> nat
    decreases text.len(),
{
    if text.len() == 0 {
        0
    } else if text[0] == '\n' {
        1
    } else {
        1 + first_line_len(text.drop_first())
    }
}

/// The lines of `text`, terminators kept. Each line but the last ends with
/// its `'\n'`, and the last does if `text` does. No line is empty.
pub open spec fn split_lines(text: Seq<char>) -> Seq<Seq<char>>
    decreases text.len(),
{
    let n = first_line_len(text) as int;
    if 0 < n <= text.len() {
        seq![text.take(n)] + split_lines(text.skip(n))
    } else {
        Seq::empty()
    }
}

/// `text` line by line in the default style: one run for each line.
pub open spec fn plain_lines(text: Seq<char>) -> Seq<Seq<CodeTokenView>> {
    split_lines(text).map_values(|l: Seq<char>| seq![plain_token(l)])
}

/// `lines` are the lines of `text`, each cut into runs in some way.
pub open spec fn styles_text(lines: Seq<Seq<CodeTokenView>>, text: Seq<char>) -> bool {
    lines.map_values(|l: Seq<CodeTokenView>| line_text(l)) == split_lines(text)
}

/// The line that a tokenizer's answer for `line` gives: its runs where they
/// spell `line`, and else `line` as one run in the default style.
pub open spec fn checked_runs(line: Seq<char>, runs: Option<Seq<CodeTokenView>>) -> Seq<
    CodeTokenView,
> {
    match runs {
        Some(r) if line_text(r) == line => r,
        _ => seq![plain_token(line)],
    }
}

/// The first line of a text ends at its first `'\n'`, or where the text ends.
proof fn lemma_first_line_len(s: Seq<char>, k: int)
    requires
        0 <= k <= s.len(),
        forall|j: int| 0 <= j < k ==> s[j] != '\n',
        k < s.len() ==> s[k] == '\n',
    ensures
        first_line_len(s) == (if k < s.len() { k + 1 } else { k }),
    decreases k,
{
    if s.len() != 0 && k != 0 {
        let t = s.drop_first();
        assert forall|j: int| 0 <= j < k - 1 implies t[j] != '\n' by {
            assert(t[j] == s[j + 1]);
        }
        lemma_first_line_len(t, k - 1);
    }
}

/// The first line of a text is no longer than the text, and is empty only
/// where the text is.
proof fn lemma_first_line_bounds(s: Seq<char>)
    ensures
        first_line_len(s) <= s.len(),
        s.len() > 0 ==> first_line_len(s) > 0,
    decreases s.len(),
{
    if s.len() != 0 && s[0] != '\n' {
        lemma_first_line_bounds(s.drop_first());
    }
}

/// Cutting a text into lines loses nothing: the lines, one after the other,
/// are the text.
pub proof fn lemma_lines_spell_text(text: Seq<char>)
    ensures
        split_lines(text).flatten() == text,
    decreases text.len(),
{
    lemma_first_line_bounds(text);
    if text.len() > 0 {
        let n = first_line_len(text) as int;
        let rest = split_lines(text.skip(n));
        lemma_lines_spell_text(text.skip(n));
        assert((seq![text.take(n)] + rest).drop_first() == rest);
    }
}

/// A line in the default style spells the line.
proof fn lemma_plain_line_text(line: Seq<char>)
    ensures
        line_text(seq![plain_token(line)]) == line,
{
    let sources = seq![plain_token(line)].map_values(|t: CodeTokenView| t.source);
    sources.lemma_flatten_one_element();
}

/// A text line by line in the default style is a styling of that text.
pub proof fn lemma_plain_lines_style(text: Seq<char>)
    ensures
        styles_text(plain_lines(text), text),
{
    let lines = plain_lines(text);
    let spelled = lines.map_values(|l: Seq<CodeTokenView>| line_text(l));
    assert forall|i: int| 0 <= i < spelled.len() implies spelled[i] == split_lines(text)[i] by {
        lemma_plain_line_text(split_lines(text)[i]);
    }
    assert(spelled == split_lines(text));
}

/// The lines of a styled block, one after the other, are the block's text,
/// terminators included.
pub proof fn lemma_styled_lines_spell_text(lines: Seq<Seq<CodeTokenView>>, text: Seq<char>)
    requires
        styles_text(lines, text),
    ensures
        block_text(lines) == text,
{
    lemma_lines_spell_text(text);
}

impl CodeToken {
    /// A run in the default style.
    pub fn plain(source: String) -> (token: CodeToken)
        ensures
            token@ == plain_token(source@),
            token == (CodeToken { source, fg: default_fg(), bold: false }),
    {
        CodeToken { source, fg: (255, 255, 255), bold: false }
    }

    /// A run in a given style.
    pub fn styled(source: String, fg: (u8, u8, u8), bold: bool) -> (token: CodeToken)
        ensures
            token@ == (CodeTokenView { source: source@, fg, bold }),
    {
        CodeToken { source, fg, bold }
    }
}

impl From<String> for CodeToken {
    /// A run in the default style.
    fn from(value: String) -> (token: CodeToken) {
        CodeToken::plain(value)
    }
}

impl FromSpecImpl<String> for CodeToken {
    open spec fn obeys_from_spec() -> bool {
        true
    }

    open spec fn from_spec(value: String) -> CodeToken {
        CodeToken { source: value, fg: default_fg(), bold: false }
    }
}

impl From<Vec<CodeToken>> for CodeLine {
    /// The line of these runs.
    fn from(value: Vec<CodeToken>) -> (line: CodeLine) {
        CodeLine { parts: value }
    }
}

impl FromSpecImpl<Vec<CodeToken>> for CodeLine {
    open spec fn obeys_from_spec() -> bool {
        true
    }

    open spec fn from_spec(value: Vec<CodeToken>) -> CodeLine {
        CodeLine { parts: value }
    }
}

impl From<CodeToken> for CodeLine {
    /// The line of one run.
    fn from(value: CodeToken) -> (line: CodeLine)
        ensures
            line@ == seq![value@],
    {
        let parts = vec![value];
        CodeLine { parts }
    }
}

/// A line holds a vector, which no specification can build: what `from`
/// gives is stated by its own `ensures`.
impl FromSpecImpl<CodeToken> for CodeLine {
    open spec fn obeys_from_spec() -> bool {
        false
    }

    open spec fn from_spec(value: CodeToken) -> CodeLine {
        arbitrary()
    }
}

/// The lines of a text, terminators kept.
pub fn lines_of(text: &str) -> (lines: Vec<String>)
    ensures
        texts(lines@) == split_lines(text@),
{
    let mut lines: Vec<String> = Vec::new();
    let total = text.unicode_len();
    let mut start: usize = 0;
    let mut pos: usize = 0;
    proof {
        assert(text@.skip(0) == text@);
    }
    for c in it: text.chars()
        invariant
            it.seq() == text@,
            pos == it.index(),
            start <= pos <= total,
            total == text@.len(),
            forall|j: int| start <= j < pos ==> text@[j] != '\n',
            split_lines(text@) == texts(lines@) + split_lines(text@.skip(start as int)),
    {
        pos += 1;
        if c == '\n' {
            let line = text.substring_char(start, pos).to_owned();
            proof {
                let rest = text@.skip(start as int);
                assert forall|j: int| 0 <= j < pos - 1 - start implies rest[j] != '\n' by {
                    assert(rest[j] == text@[start + j]);
                }
                lemma_first_line_len(rest, pos - 1 - start);
                assert(rest.take(pos - start) == text@.subrange(start as int, pos as int));
                assert(rest.skip(pos - start) == text@.skip(pos as int));
            }
            lines.push(line);
            start = pos;
        }
    }
    if start < pos {
        let line = text.substring_char(start, pos).to_owned();
        proof {
            let rest = text@.skip(start as int);
            assert forall|j: int| 0 <= j < pos - start implies rest[j] != '\n' by {
                assert(rest[j] == text@[start + j]);
            }
            lemma_first_line_len(rest, pos - start);
            assert(rest.take(pos - start) == text@.subrange(start as int, pos as int));
            assert(rest.skip(pos - start) == Seq::<char>::empty());
        }
        lines.push(line);
        start = pos;
    }
    proof {
        assert(text@.skip(start as int) == Seq::<char>::empty());
        assert(split_lines(text@.skip(start as int)) == Seq::<Seq<char>>::empty());
    }
    lines
}

/// The text that the runs spell.
fn join_sources(runs: &Vec<CodeToken>) -> (text: String)
    ensures
        text@ == line_text(runs_view(runs@)),
{
    let mut text = String::new();
    let ghost sources = runs_view(runs@).map_values(|t: CodeTokenView| t.source);
    let mut i: usize = 0;
    while i < runs.len()
        invariant
            i <= runs.len(),
            sources == runs_view(runs@).map_values(|t: CodeTokenView| t.source),
            text@ == sources.take(i as int).flatten(),
        decreases runs.len() - i,
    {
        proof {
            assert(sources.take(i + 1) == sources.take(i as int).push(runs[i as int].source@));
            sources.take(i as int).lemma_flatten_push(runs[i as int].source@);
        }
        text.append(runs[i].source.as_str());
        i += 1;
    }
    proof {
        assert(sources.take(i as int) == sources);
    }
    text
}

/// One line of a block, from what the tokenizer gave for it.
///
/// The tokenizer's runs are kept where they spell the line. Where it failed,
/// or where its runs spell something else, the line is shown in the default
/// style: no text is lost or changed.
pub fn line_from_runs(line: String, runs: Option<Vec<CodeToken>>) -> (styled: CodeLine)
    ensures
        styled@ == checked_runs(
            line@,
            match runs {
                Some(r) => Some(runs_view(r@)),
                None => None,
            },
        ),
        line_text(styled@) == line@,
{
    match runs {
        Some(r) => {
            let spelled = join_sources(&r);
            if spelled == line {
                return CodeLine { parts: r };
            }
        },
        None => {},
    }
    let ghost text = line@;
    let parts = vec![CodeToken::plain(line)];
    proof {
        lemma_plain_line_text(text);
    }
    CodeLine { parts }
}

/// A text line by line in the default style: what highlighting gives where
/// no grammar matches.
pub fn plain_code(code: &str) -> (lines: Vec<CodeLine>)
    ensures
        lines_view(lines@) == plain_lines(code@),
{
    let raw = lines_of(code);
    let mut lines: Vec<CodeLine> = Vec::new();
    let mut i: usize = 0;
    while i < raw.len()
        invariant
            i <= raw.len(),
            texts(raw@) == split_lines(code@),
            lines_view(lines@) == plain_lines(code@).take(i as int),
        decreases raw.len() - i,
    {
        let line = line_from_runs(raw[i].clone(), None);
        proof {
            assert(plain_lines(code@).take(i + 1) == plain_lines(code@).take(i as int).push(
                line@,
            ));
        }
        lines.push(line);
        i += 1;
    }
    lines
}

/// `syntect::parsing::SyntaxSet`, a set of grammars: nothing is known of what
/// it holds but through `known_extensions`.
#[verifier::external_type_specification]
#[verifier::external_body]
pub struct ExSyntaxSet(SyntaxSet);

/// `syntect::parsing::SyntaxReference`, one grammar of a set: nothing is
/// known of it.
#[verifier::external_type_specification]
#[verifier::external_body]
pub struct ExSyntaxReference(SyntaxReference);

/// `syntect::highlighting::Theme`, the colours of the styles: nothing is
/// known of it.
#[verifier::external_type_specification]
#[verifier::external_body]
pub struct ExTheme(Theme);

/// `syntect::easy::HighlightLines`, a tokenizer with its state: nothing is
/// known of it.
#[verifier::external_type_specification]
#[verifier::external_body]
pub struct ExHighlightLines<'a>(HighlightLines<'a>);

/// The language tags for which a grammar set has a grammar: those for which
/// `SyntaxSet::find_syntax_by_extension` finds one.
pub uninterp spec fn known_extensions(set: SyntaxSet) -> Set<Seq<char>>;

/// The grammars and the theme that code is highlighted with. The grammars
/// are always a set that `syntect` loaded itself: a catalog cannot be made of
/// a set put together by hand, whose grammars the tokenizer may not survive.
pub struct Catalog {
    syntaxes: SyntaxSet,
    theme: Theme,
}

/// A grammar, with the set that it was found in.
struct Grammar<'a> {
    syntax: &'a SyntaxReference,
    syntaxes: &'a SyntaxSet,
}

/// The tokenizer of one code block, with the set that its grammar is from.
struct LineHighlighter<'a> {
    state: HighlightLines<'a>,
    syntaxes: &'a SyntaxSet,
}

/// `SyntaxSet::find_syntax_by_extension`: the grammar that a set has for a
/// tag, if it has one. Trusted: it finds one for the tags that
/// `known_extensions` names, and for no other.
#[verifier::external_body]
fn find_grammar<'a>(syntaxes: &'a SyntaxSet, extension: &str) -> (found: Option<Grammar<'a>>)
    ensures
        found.is_some() == known_extensions(*syntaxes).contains(extension@),
{
    let syntax = syntaxes.find_syntax_by_extension(extension)?;
    Some(Grammar { syntax, syntaxes })
}

/// `SyntaxSet::load_defaults_newlines`: the grammars that `syntect` ships
/// with, for lines that end with their newline. Nothing is claimed of them
/// here; they are the one set that a catalog holds.
#[verifier::external_body]
fn default_syntaxes() -> SyntaxSet {
    SyntaxSet::load_defaults_newlines()
}

/// `HighlightLines::new`: a tokenizer at the start of a block. It keeps the
/// set that the grammar was found in, which is the one that
/// `highlight_line` must be given. Nothing is claimed of the result.
///
/// A `Grammar` is only ever found in a catalog's set, which `syntect` loaded
/// itself: each of its grammars has the start context that this call looks
/// up.
#[verifier::external_body]
fn start_highlighter<'a>(grammar: Grammar<'a>, theme: &'a Theme) -> LineHighlighter<'a> {
    LineHighlighter {
        state: HighlightLines::new(grammar.syntax, theme),
        syntaxes: grammar.syntaxes,
    }
}

/// `HighlightLines::highlight_line`: the styled runs of the next line of the
/// block, or `None` where the tokenizer fails. Nothing is claimed of the
/// runs: the caller checks them against the line.
///
/// The tokenizer and its set come from `start_highlighter`, and so from a
/// set that `syntect` loaded itself, with patterns and context references
/// that `syntect` has resolved.
#[verifier::external_body]
fn highlight_line(highlighter: &mut LineHighlighter, line: &str) -> Option<Vec<CodeToken>> {
    let runs = highlighter.state.highlight_line(line, highlighter.syntaxes).ok()?;
    Some(
        runs.into_iter().map(
            |(style, text)|
                CodeToken::styled(
                    text.to_string(),
                    (style.foreground.r, style.foreground.g, style.foreground.b),
                    style.font_style.contains(FontStyle::BOLD),
                ),
        ).collect(),
    )
}

impl Catalog {
    /// The catalog's grammars.
    pub closed spec fn syntaxes(&self) -> SyntaxSet {
        self.syntaxes
    }

    /// The catalog's theme.
    pub closed spec fn theme(&self) -> Theme {
        self.theme
    }

    /// Whether the catalog has a grammar for a language tag.
    pub open spec fn has_grammar(&self, language: Seq<char>) -> bool {
        known_extensions(self.syntaxes()).contains(language)
    }

    /// A catalog of the grammars that `syntect` ships with and this theme.
    pub fn with_default_syntaxes(theme: Theme) -> (catalog: Catalog)
        ensures
            catalog.theme() == theme,
    {
        Catalog { syntaxes: default_syntaxes(), theme }
    }

    /// Whether the catalog has a grammar for a language tag.
    pub fn knows(&self, language: &str) -> (known: bool)
        ensures
            known == self.has_grammar(language@),
    {
        find_grammar(&self.syntaxes, language).is_some()
    }
}

/// What `highlight_code` may give for a text and a language tag.
///
/// The lines are the lines of the text, whatever the grammar did. Where the
/// tag is empty or the catalog has no grammar for it, they are in the default
/// style, one run for each line.
pub open spec fn highlights(
    catalog: &Catalog,
    code: Seq<char>,
    language: Seq<char>,
    lines: Seq<Seq<CodeTokenView>>,
) -> bool {
    &&& styles_text(lines, code)
    &&& language.len() == 0 || !catalog.has_grammar(language) ==> lines == plain_lines(code)
}

/// A text cut into lines, each line cut into runs by the grammar.
fn styled_code<'a>(code: &str, grammar: Grammar<'a>, theme: &'a Theme) -> (lines: Vec<CodeLine>)
    ensures
        styles_text(lines_view(lines@), code@),
{
    let raw = lines_of(code);
    let mut highlighter = start_highlighter(grammar, theme);
    let mut lines: Vec<CodeLine> = Vec::new();
    let ghost spelled = |l: Seq<CodeTokenView>| line_text(l);
    let mut i: usize = 0;
    while i < raw.len()
        invariant
            i <= raw.len(),
            texts(raw@) == split_lines(code@),
            spelled == |l: Seq<CodeTokenView>| line_text(l),
            lines_view(lines@).map_values(spelled) == split_lines(code@).take(i as int),
        decreases raw.len() - i,
    {
        let runs = highlight_line(&mut highlighter, raw[i].as_str());
        let line = line_from_runs(raw[i].clone(), runs);
        proof {
            assert(split_lines(code@).take(i + 1) == split_lines(code@).take(i as int).push(
                raw[i as int]@,
            ));
        }
        lines.push(line);
        i += 1;
    }
    proof {
        assert(split_lines(code@).take(i as int) == split_lines(code@));
    }
    lines
}

/// The styled lines of a code block's text.
///
/// The text is cut into lines, terminators kept. With a grammar for the
/// language tag, each line is cut into runs by the grammar, which carries its
/// state from line to line; a line on which it fails is shown in the default
/// style. With an empty tag, or one that the catalog has no grammar for,
/// every line is one run in the default style.
pub fn highlight_code(code: String, language: &str, catalog: &Catalog) -> (lines: Vec<CodeLine>)
    ensures
        highlights(catalog, code@, language@, lines_view(lines@)),
        block_text(lines_view(lines@)) == code@,
{
    let found = if language.is_empty() {
        None
    } else {
        find_grammar(&catalog.syntaxes, language)
    };
    let lines = match found {
        Some(grammar) => styled_code(code.as_str(), grammar, &catalog.theme),
        None => {
            proof {
                lemma_plain_lines_style(code@);
            }
            plain_code(code.as_str())
        },
    };
    proof {
        lemma_styled_lines_spell_text(lines_view(lines@), code@);
    }
    lines
}

/// With an empty tag, or one that the catalog has no grammar for,
/// highlighting a text twice gives the same lines.
pub proof fn lemma_fallback_is_stable(
    catalog: &Catalog,
    code: Seq<char>,
    language: Seq<char>,
    first: Seq<Seq<CodeTokenView>>,
    second: Seq<Seq<CodeTokenView>>,
)
    requires
        language.len() == 0 || !catalog.has_grammar(language),
        highlights(catalog, code, language, first),
        highlights(catalog, code, language, second),
    ensures
        first == second,
{
}

} // verus!
