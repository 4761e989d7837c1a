//! The ways in which building a worker's assets can fail.

use vstd::prelude::*;
use vstd::string::*;

verus! {

/// A failure. None of them is recovered from: the build that met it ends.
#[derive(Debug, Clone, PartialEq, Eq)]
pub enum AssetError {
    /// The path of a script has no file stem to name the script by.
    EmptyFilename { path: String },
    /// A glob does not compile. `glob` is the pattern at fault where the
    /// matcher could tell, and `message` says what is wrong.
    GlobSyntax { glob: Option<String>, message: String },
    /// The globs of more than one module type accept the file at `path`, or the
    /// name of the file is already taken.
    MultipleTypes { path: String },
    /// The file at `path` does not lie under the upload directory.
    NotUnderRoot { path: String },
}

/// What an [`AssetError`] holds, with the strings as sequences of characters.
pub enum AssetErrorView {
    EmptyFilename { path: Seq<char> },
    GlobSyntax { glob: Option<Seq<char>>, message: Seq<char> },
    MultipleTypes { path: Seq<char> },
    NotUnderRoot { path: Seq<char> },
}

impl View for AssetError {
    type V = AssetErrorView;

    open spec fn view(&self) -> AssetErrorView {
        match self {
            AssetError::EmptyFilename { path } => AssetErrorView::EmptyFilename { path: path@ },
            AssetError::GlobSyntax { glob, message } => AssetErrorView::GlobSyntax {
                glob: match glob {
                    Some(g) => Some(g@),
                    None => None,
                },
                message: message@,
            },
            AssetError::MultipleTypes { path } => AssetErrorView::MultipleTypes { path: path@ },
            AssetError::NotUnderRoot { path } => AssetErrorView::NotUnderRoot { path: path@ },
        }
    }
}

impl AssetErrorView {
    /// The text that reports the failure.
    pub open spec fn message(self) -> Seq<char> {
        match self {
            AssetErrorView::EmptyFilename { path } => "filename should not be empty: "@ + path,
            AssetErrorView::GlobSyntax { glob: Some(g), message } => {
                "encountered error while parsing the glob \""@ + g + "\": "@ + message
            },
            AssetErrorView::GlobSyntax { glob: None, message } => {
                "encountered error while parsing globs: "@ + message
            },
            AssetErrorView::MultipleTypes { path } => {
                "The module at "@ + path + " matched multiple module type globs."@
            },
            AssetErrorView::NotUnderRoot { path } => "prefix not found"@,
        }
    }
}

impl AssetError {
    /// The text that reports the failure.
    pub fn message(&self) -> (r: String)
        ensures
            r@ == self@.message(),
    {
        match self {
            AssetError::EmptyFilename { path } => {
                let mut text = String::from_str("filename should not be empty: ");
                text.append(path.as_str());
                text
            },
            AssetError::GlobSyntax { glob: Some(g), message } => {
                let mut text = String::from_str("encountered error while parsing the glob \"");
                text.append(g.as_str());
                text.append("\": ");
                text.append(message.as_str());
                text
            },
            AssetError::GlobSyntax { glob: None, message } => {
                let mut text = String::from_str("encountered error while parsing globs: ");
                text.append(message.as_str());
                text
            },
            AssetError::MultipleTypes { path } => {
                let mut text = String::from_str("The module at ");
                text.append(path.as_str());
                text.append(" matched multiple module type globs.");
                text
            },
            AssetError::NotUnderRoot { path: _ } => String::from_str("prefix not found"),
        }
    }
}

} // verus!
