//! What the parser reports when the text does not follow the grammar.

use vstd::prelude::*;

use crate::ast::Pos;
use crate::text::{chars_of, extend_chars, push_decimal, string_of};

verus! {

/// What is wrong with a JSON value.
#[derive(Clone, Debug, PartialEq, Eq)]
pub enum JsonError {
    TrailingComma,
    ExpectingElement,
}

/// The cause of a parse failure.
#[derive(Clone, Debug, PartialEq, Eq)]
pub enum ParseError {
    Expecting { value: String },
    Space,
    Eof,
    Method { name: String },
    Version,
    Status,
    Filename,
    EscapeChar,
    Unicode,
    HexDigit,
    TemplateVariable,
    RegexExpr { message: String },
    Predicate,
    PredicateValue,
    ResponseSectionName { name: String },
    InvalidCookieAttribute,
    OddNumberOfHexDigits,
    Multiline,
    Json(JsonError),
    Xml,
}

/// What a [`ParseError`] holds, as plain sequences.
pub enum ParseErrorView {
    Expecting { value: Seq<char> },
    Space,
    Eof,
    Method { name: Seq<char> },
    Version,
    Status,
    Filename,
    EscapeChar,
    Unicode,
    HexDigit,
    TemplateVariable,
    RegexExpr { message: Seq<char> },
    Predicate,
    PredicateValue,
    ResponseSectionName { name: Seq<char> },
    InvalidCookieAttribute,
    OddNumberOfHexDigits,
    Multiline,
    Json(JsonError),
    Xml,
}

impl View for ParseError {
    type V = ParseErrorView;

    open spec fn view(&self) -> ParseErrorView {
        match self {
            ParseError::Expecting { value } => ParseErrorView::Expecting { value: value@ },
            ParseError::Space => ParseErrorView::Space,
            ParseError::Eof => ParseErrorView::Eof,
            ParseError::Method { name } => ParseErrorView::Method { name: name@ },
            ParseError::Version => ParseErrorView::Version,
            ParseError::Status => ParseErrorView::Status,
            ParseError::Filename => ParseErrorView::Filename,
            ParseError::EscapeChar => ParseErrorView::EscapeChar,
            ParseError::Unicode => ParseErrorView::Unicode,
            ParseError::HexDigit => ParseErrorView::HexDigit,
            ParseError::TemplateVariable => ParseErrorView::TemplateVariable,
            ParseError::RegexExpr { message } => ParseErrorView::RegexExpr { message: message@ },
            ParseError::Predicate => ParseErrorView::Predicate,
            ParseError::PredicateValue => ParseErrorView::PredicateValue,
            ParseError::ResponseSectionName { name } => ParseErrorView::ResponseSectionName {
                name: name@,
            },
            ParseError::InvalidCookieAttribute => ParseErrorView::InvalidCookieAttribute,
            ParseError::OddNumberOfHexDigits => ParseErrorView::OddNumberOfHexDigits,
            ParseError::Multiline => ParseErrorView::Multiline,
            ParseError::Json(e) => ParseErrorView::Json(*e),
            ParseError::Xml => ParseErrorView::Xml,
        }
    }
}

/// What an [`Error`] holds, as plain values.
pub struct ErrorView {
    pub pos: Pos,
    pub recoverable: bool,
    pub inner: ParseErrorView,
}

impl View for Error {
    type V = ErrorView;

    open spec fn view(&self) -> ErrorView {
        ErrorView { pos: self.pos, recoverable: self.recoverable, inner: self.inner@ }
    }
}

impl ErrorView {
    /// The same failure, open to another rule.
    pub open spec fn recoverable(self) -> ErrorView {
        ErrorView { pos: self.pos, recoverable: true, inner: self.inner }
    }

    /// The same failure, closed to any other rule.
    pub open spec fn fatal(self) -> ErrorView {
        ErrorView { pos: self.pos, recoverable: false, inner: self.inner }
    }

    /// The failure as text: line, column and cause.
    pub open spec fn message(self) -> Seq<char> {
        crate::text::decimal_text(self.pos.line as nat) + seq![':']
            + crate::text::decimal_text(self.pos.column as nat) + seq![':', ' ']
            + self.inner.message()
    }
}

impl ParseErrorView {
    /// The cause as text.
    pub open spec fn message(self) -> Seq<char> {
        match self {
            ParseErrorView::Expecting { value } => "expecting '"@ + value + "'"@,
            ParseErrorView::Space => "expecting a space"@,
            ParseErrorView::Eof => "unexpected end of file"@,
            ParseErrorView::Method { name } => "the HTTP method <"@ + name + "> is not valid"@,
            ParseErrorView::Version => "the HTTP version is not valid"@,
            ParseErrorView::Status => "the HTTP status is not valid"@,
            ParseErrorView::Filename => "the file name is not valid"@,
            ParseErrorView::EscapeChar => "the escaping sequence is not valid"@,
            ParseErrorView::Unicode => "the unicode escape is not valid"@,
            ParseErrorView::HexDigit => "expecting a hexadecimal digit"@,
            ParseErrorView::TemplateVariable => "expecting a variable"@,
            ParseErrorView::RegexExpr { message } => "invalid regex: "@ + message,
            ParseErrorView::Predicate => "expecting a predicate"@,
            ParseErrorView::PredicateValue => "invalid predicate value"@,
            ParseErrorView::ResponseSectionName { name } => "the section name <"@ + name
                + "> is not valid"@,
            ParseErrorView::InvalidCookieAttribute => "the cookie attribute is not valid"@,
            ParseErrorView::OddNumberOfHexDigits => "expecting an even number of hex digits"@,
            ParseErrorView::Multiline => "the multiline string is not closed"@,
            ParseErrorView::Json(JsonError::TrailingComma) => "trailing comma is not allowed"@,
            ParseErrorView::Json(JsonError::ExpectingElement) => "expecting an element"@,
            ParseErrorView::Xml => "the XML is not well formed"@,
        }
    }
}

/// A parse failure: where, whether another rule may still be tried at the
/// same place, and why.
#[derive(Clone, Debug, PartialEq, Eq)]
pub struct Error {
    pub pos: Pos,
    pub recoverable: bool,
    pub inner: ParseError,
}

impl Error {
    pub fn new(pos: Pos, recoverable: bool, inner: ParseError) -> (r: Error)
        ensures
            r.pos == pos,
            r.recoverable == recoverable,
            r.inner == inner,
            r@ == (ErrorView { pos, recoverable, inner: inner@ }),
    {
        Error { pos, recoverable, inner }
    }

    /// The same failure, open to another rule.
    pub fn recoverable(self) -> (r: Error)
        ensures
            r.pos == self.pos,
            r.recoverable,
            r.inner == self.inner,
            r@ == self@.recoverable(),
    {
        Error { pos: self.pos, recoverable: true, inner: self.inner }
    }

    /// The same failure, closed to any other rule.
    pub fn fatal(self) -> (r: Error)
        ensures
            r.pos == self.pos,
            !r.recoverable,
            r.inner == self.inner,
            r@ == self@.fatal(),
    {
        Error { pos: self.pos, recoverable: false, inner: self.inner }
    }

    /// The failure as text: line, column and cause.
    pub fn to_string(&self) -> (r: String)
        ensures
            r@ == self@.message(),
    {
        let mut out: Vec<char> = Vec::new();
        push_decimal(&mut out, self.pos.line as u64);
        out.push(':');
        push_decimal(&mut out, self.pos.column as u64);
        out.push(':');
        out.push(' ');
        extend_chars(&mut out, &chars_of(self.inner.to_string().as_str()));
        assert(out@ =~= self@.message());
        string_of(&out)
    }
}

impl ParseError {
    /// The cause as text.
    pub fn to_string(&self) -> (r: String)
        ensures
            r@ == self@.message(),
    {
        match self {
            ParseError::Expecting { value } => {
                let head = crate::text::concat("expecting '", value.as_str());
                crate::text::concat(head.as_str(), "'")
            },
            ParseError::Space => "expecting a space".to_string(),
            ParseError::Eof => "unexpected end of file".to_string(),
            ParseError::Method { name } => {
                let head = crate::text::concat("the HTTP method <", name.as_str());
                crate::text::concat(head.as_str(), "> is not valid")
            },
            ParseError::Version => "the HTTP version is not valid".to_string(),
            ParseError::Status => "the HTTP status is not valid".to_string(),
            ParseError::Filename => "the file name is not valid".to_string(),
            ParseError::EscapeChar => "the escaping sequence is not valid".to_string(),
            ParseError::Unicode => "the unicode escape is not valid".to_string(),
            ParseError::HexDigit => "expecting a hexadecimal digit".to_string(),
            ParseError::TemplateVariable => "expecting a variable".to_string(),
            ParseError::RegexExpr { message } => crate::text::concat(
                "invalid regex: ",
                message.as_str(),
            ),
            ParseError::Predicate => "expecting a predicate".to_string(),
            ParseError::PredicateValue => "invalid predicate value".to_string(),
            ParseError::ResponseSectionName { name } => {
                let head = crate::text::concat("the section name <", name.as_str());
                crate::text::concat(head.as_str(), "> is not valid")
            },
            ParseError::InvalidCookieAttribute => "the cookie attribute is not valid".to_string(),
            ParseError::OddNumberOfHexDigits => "expecting an even number of hex digits".to_string(),
            ParseError::Multiline => "the multiline string is not closed".to_string(),
            ParseError::Json(JsonError::TrailingComma) => "trailing comma is not allowed".to_string(),
            ParseError::Json(JsonError::ExpectingElement) => "expecting an element".to_string(),
            ParseError::Xml => "the XML is not well formed".to_string(),
        }
    }
}

} // verus!
