//! What the program is started on: a markdown file, or a directory of them.

use crate::token::Token;
use vstd::prelude::*;
use vstd::string::StringExecFns;

verus! {

/// A markdown file of a directory listing.
#[derive(Debug, PartialEq)]
pub struct MarkdownDocument {
    file_name: String,
    path: String,
    size: String,
}

/// What a `MarkdownDocument` stands for.
pub struct MarkdownDocumentView {
    pub file_name: Seq<char>,
    pub path: Seq<char>,
    pub size: Seq<char>,
}

impl View for MarkdownDocument {
    type V = MarkdownDocumentView;

    closed spec fn view(&self) -> MarkdownDocumentView {
        MarkdownDocumentView { file_name: self.file_name@, path: self.path@, size: self.size@ }
    }
}

impl MarkdownDocument {
    /// A document with this name, at this path, of this size as it is shown.
    pub fn new(file_name: String, path: String, size: String) -> (document: MarkdownDocument)
        ensures
            document@ == (MarkdownDocumentView {
                file_name: file_name@,
                path: path@,
                size: size@,
            }),
    {
        MarkdownDocument { file_name, path, size }
    }

    /// The file's name.
    pub fn file_name(&self) -> (name: &str)
        ensures
            name@ == self@.file_name,
    {
        self.file_name.as_str()
    }

    /// The file's path.
    pub fn path(&self) -> (path: &str)
        ensures
            path@ == self@.path,
    {
        self.path.as_str()
    }

    /// The file's size, as it is shown.
    pub fn size(&self) -> (size: &str)
        ensures
            size@ == self@.size,
    {
        self.size.as_str()
    }
}

/// Whether a file is a markdown file, by the extension of its name: `md` is
/// the one extension of markdown files.
pub fn is_markdown(extension: Option<&str>) -> (markdown: bool)
    ensures
        markdown == (extension matches Some(e) && e@ == "md"@),
{
    match extension {
        Some(e) => e.to_owned() == "md".to_owned(),
        None => false,
    }
}

/// The view that the program starts in, with what it shows.
#[derive(Debug, PartialEq)]
pub enum Entrypoint {
    /// The list of the documents of a directory.
    Dashboard(Vec<MarkdownDocument>),
    /// One document.
    Viewer(Vec<Token>),
}

impl Entrypoint {
    /// The name of the route of the entrypoint's view.
    pub open spec fn route(self) -> Seq<char> {
        match self {
            Entrypoint::Dashboard(_) => "dashboard"@,
            Entrypoint::Viewer(_) => "viewer"@,
        }
    }

    /// The name of the route of the entrypoint's view: `"dashboard"` or
    /// `"viewer"`.
    pub fn to_string(&self) -> (name: String)
        ensures
            name@ == self.route(),
    {
        match self {
            Entrypoint::Dashboard(_) => "dashboard".to_owned(),
            Entrypoint::Viewer(_) => "viewer".to_owned(),
        }
    }
}

/// A path that exists, by what is there.
#[derive(Debug, PartialEq)]
pub enum DocumentPath {
    File(String),
    Dir(String),
}

/// Why a path names no document.
#[derive(Debug, PartialEq)]
pub enum DocumentPathError {
    /// Nothing is at the path. The message names the path.
    NotFound(String),
}

/// The message for a path at which nothing is.
pub open spec fn not_found_message(path: Seq<char>) -> Seq<char> {
    "unable to find "@ + path
}

impl DocumentPathError {
    /// The error's message.
    pub fn to_string(&self) -> (message: String)
        ensures
            self matches DocumentPathError::NotFound(m) && message@ == m@,
    {
        match self {
            DocumentPathError::NotFound(message) => message.clone(),
        }
    }
}

impl DocumentPath {
    /// Sorts a path by what the file system holds at it.
    ///
    /// A path at which nothing is gives `NotFound`, with a message that names
    /// it. A directory gives `Dir`, and anything else `File`.
    pub fn resolve(value: String, exists: bool, is_dir: bool) -> (resolved: Result<
        DocumentPath,
        DocumentPathError,
    >)
        ensures
            !exists ==> (resolved matches Err(DocumentPathError::NotFound(m)) && m@
                == not_found_message(value@)),
            exists && is_dir ==> (resolved matches Ok(DocumentPath::Dir(p)) && p@ == value@),
            exists && !is_dir ==> (resolved matches Ok(DocumentPath::File(p)) && p@ == value@),
    {
        if !exists {
            let mut message = "unable to find ".to_owned();
            message.append(value.as_str());
            return Err(DocumentPathError::NotFound(message));
        }
        if is_dir {
            Ok(DocumentPath::Dir(value))
        } else {
            Ok(DocumentPath::File(value))
        }
    }
}

} // verus!
