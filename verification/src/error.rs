//! Why an operation of the editor can fail.

use vstd::prelude::*;

verus! {

/// Why a document was not closed.
#[derive(Debug, Clone, PartialEq, Eq)]
pub enum CloseError {
    /// No document is registered under the identifier.
    NotFound,
    /// The document has unsaved changes and the close was not forced. The
    /// name is the one the document is reported under.
    Modified(String),
}

/// The mathematical value of a `CloseError`.
#[verifier::ext_equal]
pub enum CloseErrorModel {
    NotFound,
    Modified(Seq<char>),
}

impl View for CloseError {
    type V = CloseErrorModel;

    open spec fn view(&self) -> CloseErrorModel {
        match *self {
            CloseError::NotFound => CloseErrorModel::NotFound,
            CloseError::Modified(name) => CloseErrorModel::Modified(name@),
        }
    }
}

/// Why a path was not opened.
#[derive(Debug, Clone, Copy, PartialEq, Eq, Structural)]
pub enum OpenError {
    /// No document holds the path and none could be made of the file.
    Unreadable,
}

/// Why no document was made of the standard input.
#[derive(Debug, Clone, Copy, PartialEq, Eq, Structural)]
pub enum StdinError {
    /// The input could not be read, or is no text.
    Unreadable,
}

/// Why a theme was not set.
#[derive(Debug, Clone, PartialEq, Eq)]
pub enum ThemeError {
    /// No theme of this name could be loaded.
    NotLoaded(String),
}

/// The mathematical value of a `ThemeError`.
#[verifier::ext_equal]
pub enum ThemeErrorModel {
    NotLoaded(Seq<char>),
}

impl View for ThemeError {
    type V = ThemeErrorModel;

    open spec fn view(&self) -> ThemeErrorModel {
        match *self {
            ThemeError::NotLoaded(name) => ThemeErrorModel::NotLoaded(name@),
        }
    }
}

} // verus!
