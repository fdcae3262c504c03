//! The view of one document: what its keys and its mouse wheel do, and what
//! it shows while a document is loaded.

use crate::builder::{outline, renders_all};
use crate::markdown::{lexed, parse};
use crate::syntax::Catalog;
use crate::token::{tokens_view, Token};
use vstd::prelude::*;

verus! {

/// A key, as the views tell keys apart.
#[derive(Debug, Clone, Copy, PartialEq, Eq)]
pub enum Key {
    Char(char),
    Up,
    Down,
    PageUp,
    PageDown,
    Enter,
    /// Any other key.
    Other,
}

/// A turn of the mouse wheel, or any other mouse event.
#[derive(Debug, Clone, Copy, PartialEq, Eq)]
pub enum Wheel {
    ScrollUp,
    ScrollDown,
    /// Any other mouse event.
    Other,
}

/// What to do to the scrolled area.
#[derive(Debug, Clone, Copy, PartialEq, Eq)]
pub enum Scroll {
    /// Leave it where it is.
    Stay,
    /// One line up.
    Up,
    /// One line down.
    Down,
    /// This many lines up.
    UpBy(i32),
    /// This many lines down.
    DownBy(i32),
}

/// The number of lines that the mouse wheel scrolls by.
pub const WHEEL_LINES: i32 = 3;

/// Half the height of the screen, rounded up.
pub open spec fn half_page(height: u16) -> int {
    (height + 1) / 2
}

/// What a key does to a scrolled view: `j` and the down arrow scroll one
/// line down, `k` and the up arrow one line up, and the page keys half a
/// screen.
pub open spec fn key_scroll(key: Key, height: u16) -> Scroll {
    match key {
        Key::Char('j') | Key::Down => Scroll::Down,
        Key::Char('k') | Key::Up => Scroll::Up,
        Key::PageUp => Scroll::UpBy(half_page(height) as i32),
        Key::PageDown => Scroll::DownBy(half_page(height) as i32),
        _ => Scroll::Stay,
    }
}

/// What the mouse wheel does to a scrolled view: three lines a turn.
pub open spec fn wheel_scroll(wheel: Wheel) -> Scroll {
    match wheel {
        Wheel::ScrollUp => Scroll::UpBy(WHEEL_LINES),
        Wheel::ScrollDown => Scroll::DownBy(WHEEL_LINES),
        Wheel::Other => Scroll::Stay,
    }
}

/// What a key does to a scrolled view.
fn scroll_for_key(key: Key, height: u16) -> (scroll: Scroll)
    ensures
        scroll == key_scroll(key, height),
{
    let half: i32 = (height / 2 + height % 2) as i32;
    match key {
        Key::Char('j') | Key::Down => Scroll::Down,
        Key::Char('k') | Key::Up => Scroll::Up,
        Key::PageUp => Scroll::UpBy(half),
        Key::PageDown => Scroll::DownBy(half),
        _ => Scroll::Stay,
    }
}

/// What the mouse wheel does to a scrolled view.
fn scroll_for_wheel(wheel: Wheel) -> (scroll: Scroll)
    ensures
        scroll == wheel_scroll(wheel),
{
    match wheel {
        Wheel::ScrollUp => Scroll::UpBy(WHEEL_LINES),
        Wheel::ScrollDown => Scroll::DownBy(WHEEL_LINES),
        Wheel::Other => Scroll::Stay,
    }
}

/// What the view of one document shows.
#[derive(Debug, PartialEq)]
pub struct ViewerState {
    /// The document's nodes.
    pub tokens: Vec<Token>,
    /// Whether a document is being loaded, or none was loaded yet.
    pub loading_document: bool,
    /// The number of the document's nodes.
    pub total_tokens: usize,
    /// Whether the last document could not be read.
    pub has_error: bool,
}

impl ViewerState {
    /// The state that shows these nodes. Without nodes the view waits for a
    /// document.
    pub fn new(tokens: Vec<Token>) -> (state: ViewerState)
        ensures
            state.tokens == tokens,
            state.loading_document == (tokens@.len() == 0),
            state.total_tokens == tokens@.len(),
            !state.has_error,
    {
        let total_tokens = tokens.len();
        ViewerState { loading_document: total_tokens == 0, has_error: false, total_tokens, tokens }
    }
}

impl Default for ViewerState {
    /// The state of a view that shows nothing and waits for nothing.
    fn default() -> (state: ViewerState)
        ensures
            state.tokens@.len() == 0,
            !state.loading_document,
            state.total_tokens == 0,
            !state.has_error,
    {
        ViewerState {
            tokens: Vec::new(),
            loading_document: false,
            total_tokens: 0,
            has_error: false,
        }
    }
}

/// The view of one document.
#[derive(Debug, Default)]
pub struct Viewer;

impl Viewer {
    /// Takes in the answer to a request to show a document: the document's
    /// text, or `None` where it could not be read.
    ///
    /// A text is read into nodes, which the view then shows: they are what
    /// `parse` gives for the text. Without a text the view keeps what it
    /// showed, keeps waiting, and shows an error.
    pub fn message(state: &mut ViewerState, contents: Option<&str>, catalog: &Catalog)
        ensures
            final(state).has_error == (old(state).has_error || contents is None),
            final(state).loading_document == (contents is None),
            contents is None ==> final(state).tokens == old(state).tokens,
            contents is None ==> final(state).total_tokens == old(state).total_tokens,
            contents is Some ==> final(state).total_tokens == final(state).tokens@.len(),
            contents matches Some(text) ==> renders_all(
                catalog,
                outline(lexed(text@), 0).blocks,
                tokens_view(final(state).tokens@),
            ),
    {
        state.loading_document = true;
        match contents {
            Some(text) => {
                let document = parse(text, catalog);
                state.total_tokens = document.tokens.len();
                state.tokens = document.tokens;
                state.loading_document = false;
            },
            None => {
                state.has_error = true;
            },
        }
    }

    /// What a key does to the view.
    pub fn on_key(key: Key, height: u16) -> (scroll: Scroll)
        ensures
            scroll == key_scroll(key, height),
    {
        scroll_for_key(key, height)
    }

    /// What a mouse event does to the view.
    pub fn on_mouse(wheel: Wheel) -> (scroll: Scroll)
        ensures
            scroll == wheel_scroll(wheel),
    {
        scroll_for_wheel(wheel)
    }
}

/// The view of a document as a plain list of its nodes.
#[derive(Debug, Default)]
pub struct Index;

impl Index {
    /// What a key does to the view.
    pub fn on_key(key: Key, height: u16) -> (scroll: Scroll)
        ensures
            scroll == key_scroll(key, height),
    {
        scroll_for_key(key, height)
    }

    /// What a mouse event does to the view.
    pub fn on_mouse(wheel: Wheel) -> (scroll: Scroll)
        ensures
            scroll == wheel_scroll(wheel),
    {
        scroll_for_wheel(wheel)
    }
}

} // verus!
