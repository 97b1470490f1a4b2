//! Queries: what to extract from a request.

use vstd::prelude::*;

use crate::asserts::{AssertCompilationError, CompilationErrorView};
use crate::ast;
use crate::http::{
    cookie_in_jar, cookie_value, header_text_error, header_text_refusal, is_text,
};
use crate::json::{first_under, Json, JsonView};
use crate::possibly_trim_surrounding_quotes;
use crate::query_string::{params_view, parse_query_string, query_string_parsed};
use crate::request::{cookie_texts, header_value, text_of, text_of_bytes, Request};
use crate::text::{concat, trimmed};

verus! {

/// What to extract from a request.
#[derive(Clone, Debug, PartialEq, Eq)]
pub enum Query {
    Path,
    Header(String),
    Cookie(String),
    Body,
    Jsonpath(String),
    QueryParam(String),
}

/// What a [`Query`] holds, as plain sequences.
pub enum QueryView {
    Path,
    Header(Seq<char>),
    Cookie(Seq<char>),
    Body,
    Jsonpath(Seq<char>),
    QueryParam(Seq<char>),
}

impl View for Query {
    type V = QueryView;

    open spec fn view(&self) -> QueryView {
        match self {
            Query::Path => QueryView::Path,
            Query::Header(name) => QueryView::Header(name@),
            Query::Cookie(name) => QueryView::Cookie(name@),
            Query::Body => QueryView::Body,
            Query::Jsonpath(expr) => QueryView::Jsonpath(expr@),
            Query::QueryParam(name) => QueryView::QueryParam(name@),
        }
    }
}

impl QueryView {
    /// Whether the query can be evaluated: queries on the body are not
    /// implemented.
    pub open spec fn is_supported(self) -> bool {
        !(self is Body) && !(self is Jsonpath)
    }
}

/// Why a query failed on a request.
#[derive(Debug, PartialEq, Eq)]
pub enum QueryApplicationError {
    /// The header of this name holds bytes that are no text.
    InvalidHeaderValue(String, String),
    InvalidQueryParams(String),
}

/// What a [`QueryApplicationError`] holds, as plain sequences.
pub enum QueryErrorView {
    InvalidHeaderValue(Seq<char>, Seq<char>),
    InvalidQueryParams(Seq<char>),
}

impl View for QueryApplicationError {
    type V = QueryErrorView;

    open spec fn view(&self) -> QueryErrorView {
        match self {
            QueryApplicationError::InvalidHeaderValue(name, message) => QueryErrorView::InvalidHeaderValue(
                name@,
                message@,
            ),
            QueryApplicationError::InvalidQueryParams(message) => QueryErrorView::InvalidQueryParams(
                message@,
            ),
        }
    }
}

impl QueryErrorView {
    /// The message of the error.
    pub open spec fn message(self) -> Seq<char> {
        match self {
            QueryErrorView::InvalidHeaderValue(name, message) => "invalid value in header "@ + name
                + " - "@ + message,
            QueryErrorView::InvalidQueryParams(message) => "invalid query params - "@ + message,
        }
    }
}

impl QueryApplicationError {
    /// The message of the error.
    pub fn to_string(&self) -> (r: String)
        ensures
            r@ == self@.message(),
    {
        match self {
            QueryApplicationError::InvalidHeaderValue(name, message) => {
                let head = concat("invalid value in header ", name.as_str());
                let head = concat(head.as_str(), " - ");
                concat(head.as_str(), message.as_str())
            },
            QueryApplicationError::InvalidQueryParams(message) => concat(
                "invalid query params - ",
                message.as_str(),
            ),
        }
    }
}

/// What is put before the reason why a query string cannot be read.
pub open spec fn query_string_prefix() -> Seq<char> {
    "failed to parse query params: "@
}

/// What a query of the source asks for: its kind, and its operand as it
/// was written.
pub enum QuerySource {
    Path,
    Header(Seq<char>),
    Cookie(Seq<char>),
    Body,
    Jsonpath(Seq<char>),
    QueryParam(Seq<char>),
    /// A kind of query that only the grammar knows.
    Other,
}

/// What a query of the source asks for.
pub open spec fn query_source(value: ast::QueryValue) -> QuerySource {
    match value {
        ast::QueryValue::Path => QuerySource::Path,
        ast::QueryValue::Header { name, .. } => QuerySource::Header(name.encoded_spec()),
        ast::QueryValue::Cookie { expr, .. } => QuerySource::Cookie(expr.name.encoded_spec()),
        ast::QueryValue::Body => QuerySource::Body,
        ast::QueryValue::Jsonpath { expr, .. } => QuerySource::Jsonpath(expr.encoded_spec()),
        ast::QueryValue::QueryParam { name, .. } => QuerySource::QueryParam(name.encoded_spec()),
        _ => QuerySource::Other,
    }
}

/// The query that a query of the source compiles to: its operand loses one
/// layer of surrounding delimiters. The kinds that only the grammar knows
/// do not compile.
pub open spec fn query_from(source: QuerySource) -> Result<QueryView, CompilationErrorView> {
    match source {
        QuerySource::Path => Ok(QueryView::Path),
        QuerySource::Header(name) => Ok(QueryView::Header(trimmed(name))),
        QuerySource::Cookie(name) => Ok(QueryView::Cookie(trimmed(name))),
        QuerySource::Body => Ok(QueryView::Body),
        QuerySource::Jsonpath(expr) => Ok(QueryView::Jsonpath(trimmed(expr))),
        QuerySource::QueryParam(name) => Ok(QueryView::QueryParam(trimmed(name))),
        QuerySource::Other => Err(CompilationErrorView::InvalidQueryType),
    }
}

/// The query that a query of the source compiles to.
pub open spec fn compiled_query(value: ast::Query) -> Result<QueryView, CompilationErrorView> {
    query_from(query_source(value.value))
}

/// What a query extracts from a request.
///
/// The path is a string. A header is its first value as a string, `Null` when
/// the request has no such header, and an error when the value is no text. A
/// cookie is its value in the jar of the request, or `Null`. A query parameter
/// is its value in the parsed query string, `Null` when there is no query
/// string or no such parameter, and an error when the string cannot be read.
pub open spec fn query_result(query: QueryView, request: &Request) -> Result<
    JsonView,
    QueryErrorView,
> {
    match query {
        QueryView::Path => Ok(JsonView::String(request.path@)),
        QueryView::Header(name) => match header_value(request.headers@, name) {
            None => Ok(JsonView::Null),
            Some(bytes) => if is_text(bytes) {
                Ok(JsonView::String(text_of(bytes)))
            } else {
                Err(QueryErrorView::InvalidHeaderValue(name, header_text_error(bytes)))
            },
        },
        QueryView::Cookie(name) => match cookie_in_jar(cookie_texts(request.headers@), name) {
            Some(v) => Ok(JsonView::String(v)),
            None => Ok(JsonView::Null),
        },
        QueryView::QueryParam(name) => match request.query {
            None => Ok(JsonView::Null),
            Some(q) => match query_string_parsed(q@) {
                Ok(params) => Ok(first_under(params, name)),
                Err(e) => Err(QueryErrorView::InvalidQueryParams(query_string_prefix() + e)),
            },
        },
        QueryView::Body => Ok(JsonView::Null),
        QueryView::Jsonpath(_) => Ok(JsonView::Null),
    }
}

/// Takes the value of the first parameter called `name` out of `params`.
pub fn take_param(params: Vec<(String, Json)>, name: &String) -> (r: Json)
    ensures
        r@ == first_under(params_view(params@), name@),
{
    let mut rest = params;
    let ghost all = params_view(params@);
    let mut i: usize = 0;
    assert(all.skip(0) == all);
    while i < rest.len()
        invariant
            i <= rest.len(),
            rest@ == params@,
            all == params_view(params@),
            first_under(all, name@) == first_under(all.skip(i as int), name@),
        decreases rest.len() - i,
    {
        assert(all.skip(i as int)[0] == all[i as int]);
        if rest[i].0 == *name {
            assert(all[i as int] == (rest@[i as int].0@, rest@[i as int].1@));
            let found = rest.remove(i);
            return found.1;
        }
        assert(all.skip(i as int).skip(1) == all.skip(i + 1));
        i += 1;
    }
    Json::Null
}

impl Query {
    /// Compiles a query of the source. The name or expression loses one layer
    /// of surrounding delimiters.
    pub fn try_from(value: ast::Query) -> (r: Result<Query, AssertCompilationError>)
        ensures
            match r {
                Ok(q) => compiled_query(value) == Ok::<_, CompilationErrorView>(q@),
                Err(e) => compiled_query(value) == Err::<QueryView, _>(e@),
            },
    {
        match value.value {
            ast::QueryValue::Path => Ok(Query::Path),
            ast::QueryValue::Header { name, .. } => Ok(
                Query::Header(possibly_trim_surrounding_quotes(name.encoded())),
            ),
            ast::QueryValue::Cookie { expr, .. } => Ok(
                Query::Cookie(possibly_trim_surrounding_quotes(expr.name.encoded())),
            ),
            ast::QueryValue::Body => Ok(Query::Body),
            ast::QueryValue::Jsonpath { expr, .. } => Ok(
                Query::Jsonpath(possibly_trim_surrounding_quotes(expr.encoded())),
            ),
            ast::QueryValue::QueryParam { name, .. } => Ok(
                Query::QueryParam(possibly_trim_surrounding_quotes(name.encoded())),
            ),
            _ => Err(AssertCompilationError::InvalidQueryType),
        }
    }

    /// Extracts the value of the query from a request.
    pub fn apply(&self, request: &Request) -> (r: Result<Json, QueryApplicationError>)
        requires
            self@.is_supported(),
        ensures
            match r {
                Ok(v) => query_result(self@, request) == Ok::<_, QueryErrorView>(v@),
                Err(e) => query_result(self@, request) == Err::<JsonView, _>(e@),
            },
    {
        match self {
            Query::Path => Ok(Json::String(request.path.clone())),
            Query::Header(name) => {
                match request.header(name.as_str()) {
                    Some(bytes) => match text_of_bytes(bytes) {
                        Some(text) => Ok(Json::String(text)),
                        // Bytes that are no text are refused, so the last arm is never taken.
                        None => match header_text_refusal(bytes) {
                            Some(message) => Err(
                                QueryApplicationError::InvalidHeaderValue(name.clone(), message),
                            ),
                            None => Ok(Json::Null),
                        },
                    },
                    None => Ok(Json::Null),
                }
            },
            Query::Cookie(name) => {
                let cookies = request.cookie_headers();
                match cookie_value(&cookies, name.as_str()) {
                    Some(value) => Ok(Json::String(value)),
                    None => Ok(Json::Null),
                }
            },
            Query::Body => Ok(Json::Null),
            Query::Jsonpath(_) => Ok(Json::Null),
            Query::QueryParam(name) => {
                let query_string = match &request.query {
                    Some(q) => q,
                    None => {
                        return Ok(Json::Null);
                    },
                };
                match parse_query_string(query_string.as_str()) {
                    Ok(params) => Ok(take_param(params, name)),
                    Err(e) => Err(
                        QueryApplicationError::InvalidQueryParams(
                            concat("failed to parse query params: ", e.as_str()),
                        ),
                    ),
                }
            },
        }
    }
}

} // verus!
