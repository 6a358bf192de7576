//! The ways in which a search fails.

use vstd::prelude::*;

verus! {

/// What `message` says of a root path at which nothing exists.
pub const NOT_FOUND_MESSAGE: &'static str = "Path not found";

/// What `message` says of a root path that is no directory.
pub const NOT_A_DIRECTORY_MESSAGE: &'static str = "Path is not a directory";

/// What `message` says of a root directory whose entries could not be listed.
pub const UNREADABLE_MESSAGE: &'static str = "Directory cannot be read";

/// Why a search gave no result.
#[derive(Debug)]
pub enum FindError {
    /// The criteria contradict themselves; the text says how.
    InvalidCriteria(String),
    /// Nothing exists at the root path, which is given.
    NotFound(String),
    /// The root path, which is given, is no directory.
    NotADirectory(String),
    /// The entries of the root directory, whose path is given, could not be listed.
    Unreadable(String),
}

/// Why a search gave no result, as mathematical values.
pub enum ErrorView {
    InvalidCriteria(Seq<char>),
    NotFound(Seq<char>),
    NotADirectory(Seq<char>),
    Unreadable(Seq<char>),
}

impl ErrorView {
    /// The text that describes the error to a reader.
    pub open spec fn message(self) -> Seq<char> {
        match self {
            ErrorView::InvalidCriteria(reason) => reason,
            ErrorView::NotFound(_) => NOT_FOUND_MESSAGE@,
            ErrorView::NotADirectory(_) => NOT_A_DIRECTORY_MESSAGE@,
            ErrorView::Unreadable(_) => UNREADABLE_MESSAGE@,
        }
    }
}

impl View for FindError {
    type V = ErrorView;

    open spec fn view(&self) -> ErrorView {
        match self {
            FindError::InvalidCriteria(reason) => ErrorView::InvalidCriteria(reason@),
            FindError::NotFound(path) => ErrorView::NotFound(path@),
            FindError::NotADirectory(path) => ErrorView::NotADirectory(path@),
            FindError::Unreadable(path) => ErrorView::Unreadable(path@),
        }
    }
}

/// The result of a search as mathematical values.
pub open spec fn outcome_view(result: Result<Vec<String>, FindError>) -> Result<
    Seq<Seq<char>>,
    ErrorView,
> {
    match result {
        Ok(paths) => Ok(paths.deep_view()),
        Err(error) => Err(error@),
    }
}

impl FindError {
    /// The text that describes the error to a reader.
    pub fn message(&self) -> (text: String)
        ensures
            text@ == self@.message(),
    {
        match self {
            FindError::InvalidCriteria(reason) => reason.clone(),
            FindError::NotFound(_) => NOT_FOUND_MESSAGE.to_string(),
            FindError::NotADirectory(_) => NOT_A_DIRECTORY_MESSAGE.to_string(),
            FindError::Unreadable(_) => UNREADABLE_MESSAGE.to_string(),
        }
    }
}

} // verus!
