//! Why a mock file cannot be compiled.

use vstd::prelude::*;

use crate::entry::{EntryCompilationError, EntryErrorView};
use crate::parser;
use crate::text::concat;

verus! {

/// Why a mock file cannot be compiled.
#[derive(Debug, PartialEq, Eq)]
pub enum Error {
    Unknown,
    ParseError(parser::error::Error),
    EntryCompilationError(EntryCompilationError),
    /// Why no request can be routed by the method of a route.
    InvalidMethod(String),
}

/// What an [`Error`] holds, as plain values.
pub enum ErrorView {
    Unknown,
    ParseError(parser::error::ErrorView),
    EntryCompilationError(EntryErrorView),
    InvalidMethod(Seq<char>),
}

impl View for Error {
    type V = ErrorView;

    open spec fn view(&self) -> ErrorView {
        match self {
            Error::Unknown => ErrorView::Unknown,
            Error::ParseError(e) => ErrorView::ParseError(e@),
            Error::EntryCompilationError(e) => ErrorView::EntryCompilationError(e@),
            Error::InvalidMethod(m) => ErrorView::InvalidMethod(m@),
        }
    }
}

impl ErrorView {
    /// The message of the error.
    pub open spec fn message(self) -> Seq<char> {
        match self {
            ErrorView::Unknown => "unknown error"@,
            ErrorView::ParseError(e) => "parse error: "@ + e.message(),
            ErrorView::EntryCompilationError(e) => "entry compilation error: "@ + e.message(),
            ErrorView::InvalidMethod(m) => "invalid method: "@ + m,
        }
    }
}

impl Error {
    /// The message of the error.
    pub fn to_string(&self) -> (r: String)
        ensures
            r@ == self@.message(),
    {
        match self {
            Error::Unknown => "unknown error".to_string(),
            Error::ParseError(e) => concat("parse error: ", e.to_string().as_str()),
            Error::EntryCompilationError(e) => concat(
                "entry compilation error: ",
                e.to_string().as_str(),
            ),
            Error::InvalidMethod(m) => concat("invalid method: ", m.as_str()),
        }
    }
}

} // verus!
