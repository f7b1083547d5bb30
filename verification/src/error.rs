//! Why a request fails.

use vstd::prelude::*;

verus! {

/// A failure, with its message.
#[derive(Debug, PartialEq, Eq)]
pub enum Error {
    ValidationError(String),
    NotFound(String),
    DatabaseError(String),
    InternalError(String),
}

/// A failure, with its message.
pub enum ErrorView {
    ValidationError(Seq<char>),
    NotFound(Seq<char>),
    DatabaseError(Seq<char>),
    InternalError(Seq<char>),
}

impl View for Error {
    type V = ErrorView;

    open spec fn view(&self) -> ErrorView {
        match self {
            Error::ValidationError(m) => ErrorView::ValidationError(m@),
            Error::NotFound(m) => ErrorView::NotFound(m@),
            Error::DatabaseError(m) => ErrorView::DatabaseError(m@),
            Error::InternalError(m) => ErrorView::InternalError(m@),
        }
    }
}

/// A failure of validation with the given message.
pub fn invalid(message: &str) -> (e: Error)
    ensures
        e@ == ErrorView::ValidationError(message@),
{
    Error::ValidationError(message.to_owned())
}

} // verus!
