//! The view of a directory: a list of documents, one of them selected.

use crate::document::MarkdownDocument;
use crate::viewer::{Key, Scroll};
use vstd::prelude::*;

verus! {

/// The number of lines of the screen that the list of documents does not
/// have for itself.
pub const OVERFLOW_OFFSET: u16 = 8;

/// What the view of a directory shows.
#[derive(Debug, PartialEq)]
pub struct DashboardState {
    /// The documents of the directory.
    pub documents: Vec<MarkdownDocument>,
    /// The place of the selected document in the list.
    pub selected_idx: usize,
    /// The route that opening a document leads to.
    pub navigate_to: String,
}

/// The view of a directory.
#[derive(Debug, Default)]
pub struct Dashboard;

/// The place of the selected document after a key: `j` and the down arrow
/// select the next document, up to the last, `k` and the up arrow the one
/// before, down to the first.
pub open spec fn next_selected(selected: usize, key: Key, count: usize) -> int {
    match key {
        Key::Char('j') | Key::Down => if selected + 1 < count - 1 {
            selected + 1
        } else {
            count - 1
        },
        Key::Char('k') | Key::Up => if selected > 0 {
            selected - 1
        } else {
            0
        },
        _ => selected as int,
    }
}

/// Whether a key opens the selected document: the enter key and the space
/// bar do.
pub open spec fn opens(key: Key) -> bool {
    key == Key::Enter || key == Key::Char(' ')
}

/// How to scroll the list so that the selected document is on the screen.
///
/// The list has the screen's height less `OVERFLOW_OFFSET` for itself, and is
/// scrolled down by `offset_y` lines. A selected document below the last line
/// scrolls the list down to it, one at or above the first line scrolls it up.
pub open spec fn follow_selection(selected: usize, height: u16, offset_y: i32) -> Scroll {
    let room = height - OVERFLOW_OFFSET;
    let offset = selected - offset_y;
    if offset > room {
        Scroll::DownBy((offset - room) as i32)
    } else if offset <= 0 {
        Scroll::UpBy((-offset) as i32)
    } else {
        Scroll::Stay
    }
}

impl DashboardState {
    /// The state that lists these documents, with the first one selected.
    pub fn new(documents: Vec<MarkdownDocument>) -> (state: DashboardState)
        ensures
            state.documents == documents,
            state.selected_idx == 0,
            state.navigate_to@ == "viewer"@,
    {
        DashboardState { documents, selected_idx: 0, navigate_to: "viewer".to_owned() }
    }
}

impl Default for DashboardState {
    /// The state that lists no documents.
    fn default() -> (state: DashboardState)
        ensures
            state.documents@.len() == 0,
            state.selected_idx == 0,
            state.navigate_to@ == "viewer"@,
    {
        DashboardState { documents: Vec::new(), selected_idx: 0, navigate_to: "viewer".to_owned() }
    }
}

impl Dashboard {
    /// Takes a key: moves the selection, or opens the selected document.
    ///
    /// Returns the path of the document to open, if the key opens one. The
    /// list must hold the selected document.
    pub fn on_key(state: &mut DashboardState, key: Key) -> (open: Option<String>)
        requires
            old(state).selected_idx < old(state).documents@.len(),
        ensures
            final(state).documents == old(state).documents,
            final(state).navigate_to == old(state).navigate_to,
            final(state).selected_idx == next_selected(
                old(state).selected_idx,
                key,
                old(state).documents.len(),
            ),
            final(state).selected_idx < final(state).documents@.len(),
            opens(key) <==> open is Some,
            open matches Some(path) ==> path@ == old(state).documents@[old(
                state,
            ).selected_idx as int]@.path,
    {
        let selected = state.selected_idx;
        let max_idx = state.documents.len() - 1;
        match key {
            Key::Char('j') | Key::Down => {
                state.selected_idx = if selected + 1 < max_idx {
                    selected + 1
                } else {
                    max_idx
                };
                None
            },
            Key::Char('k') | Key::Up => {
                state.selected_idx = if selected > 0 {
                    selected - 1
                } else {
                    0
                };
                None
            },
            Key::Enter | Key::Char(' ') => Some(state.documents[selected].path().to_owned()),
            _ => None,
        }
    }

    /// How to scroll the list after a key, so that the selected document is
    /// on the screen.
    pub fn follow(selected: usize, height: u16, offset_y: i32) -> (scroll: Scroll)
        requires
            height >= OVERFLOW_OFFSET,
            selected <= i32::MAX,
            i32::MIN < selected - offset_y <= i32::MAX,
        ensures
            scroll == follow_selection(selected, height, offset_y),
    {
        let room: i32 = (height - OVERFLOW_OFFSET) as i32;
        let offset: i32 = selected as i32 - offset_y;
        if offset > room {
            Scroll::DownBy(offset - room)
        } else if offset <= 0 {
            Scroll::UpBy(-offset)
        } else {
            Scroll::Stay
        }
    }
}

} // verus!
