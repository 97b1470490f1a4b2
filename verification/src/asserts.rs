//! Conditions on a request: a query that extracts a value and a predicate
//! that tests it.

use vstd::prelude::*;

pub mod predicate;
pub mod query;

use crate::ast;
use crate::blanks::{
    blank_source, line_end_source, line_end_sources, BlankSource, LineEndSource,
};
use crate::filters::{filter_sources, FilterSource};
use crate::asserts::predicate::{
    predicate_from, test_of, Predicate, PredicateView, Test,
};
use crate::asserts::query::{
    query_from, query_result, query_source, Query, QueryApplicationError, QueryErrorView,
    QuerySource, QueryView,
};
use crate::json::JsonView;
use crate::request::Request;
use crate::text::concat;

verus! {

/// Why a condition of the source cannot be compiled.
#[derive(Debug, PartialEq, Eq)]
pub enum AssertCompilationError {
    InvalidQueryType,
    InvalidPredicate,
    InvalidPredicateValue(String),
}

/// What an [`AssertCompilationError`] holds, as plain sequences.
pub enum CompilationErrorView {
    InvalidQueryType,
    InvalidPredicate,
    InvalidPredicateValue(Seq<char>),
}

impl View for AssertCompilationError {
    type V = CompilationErrorView;

    open spec fn view(&self) -> CompilationErrorView {
        match self {
            AssertCompilationError::InvalidQueryType => CompilationErrorView::InvalidQueryType,
            AssertCompilationError::InvalidPredicate => CompilationErrorView::InvalidPredicate,
            AssertCompilationError::InvalidPredicateValue(m) => CompilationErrorView::InvalidPredicateValue(
                m@,
            ),
        }
    }
}

impl CompilationErrorView {
    /// The message of the error.
    pub open spec fn message(self) -> Seq<char> {
        match self {
            CompilationErrorView::InvalidQueryType => "invalid query type"@,
            CompilationErrorView::InvalidPredicate => "invalid predicate"@,
            CompilationErrorView::InvalidPredicateValue(m) => "invalid predicate value - "@ + m,
        }
    }
}

impl AssertCompilationError {
    /// The message of the error.
    pub fn to_string(&self) -> (r: String)
        ensures
            r@ == self@.message(),
    {
        match self {
            AssertCompilationError::InvalidQueryType => "invalid query type".to_string(),
            AssertCompilationError::InvalidPredicate => "invalid predicate".to_string(),
            AssertCompilationError::InvalidPredicateValue(m) => concat(
                "invalid predicate value - ",
                m.as_str(),
            ),
        }
    }
}

/// Why a condition could not be evaluated on a request.
#[derive(Debug, PartialEq, Eq)]
pub enum AssertionError {
    InvalidQueryValue(QueryApplicationError),
}

impl AssertionError {
    /// The message of the error.
    pub open spec fn message(&self) -> Seq<char> {
        match self {
            AssertionError::InvalidQueryValue(e) => "invalid query value - "@ + e@.message(),
        }
    }

    /// The message of the error.
    pub fn to_string(&self) -> (r: String)
        ensures
            r@ == self.message(),
    {
        match self {
            AssertionError::InvalidQueryValue(e) => concat(
                "invalid query value - ",
                e.to_string().as_str(),
            ),
        }
    }
}

/// One condition of an entry.
#[derive(Debug, PartialEq, Eq)]
pub struct Assert {
    pub query: Query,
    pub predicate: Predicate,
    pub not: bool,
}

/// What an [`Assert`] holds, as plain values.
pub struct AssertView {
    pub query: QueryView,
    pub predicate: PredicateView,
    pub not: bool,
}

impl View for Assert {
    type V = AssertView;

    open spec fn view(&self) -> AssertView {
        AssertView { query: self.query@, predicate: self.predicate@, not: self.not }
    }
}

impl AssertView {
    /// Whether the condition can be evaluated: its query is one that is
    /// implemented, and its operand is no big integer.
    pub open spec fn is_supported(self) -> bool {
        self.query.is_supported() && self.predicate.is_supported()
    }

    /// What evaluating the condition on a request gives: whether it holds,
    /// or why the query failed.
    pub open spec fn outcome(self, request: &Request) -> Result<bool, QueryErrorView> {
        match query_result(self.query, request) {
            Ok(subject) => Ok(self.predicate.holds(subject) != self.not),
            Err(e) => Err(e),
        }
    }

    /// Whether the condition is met: it evaluates, and to true.
    pub open spec fn passes(self, request: &Request) -> bool {
        self.outcome(request) == Ok::<bool, QueryErrorView>(true)
    }
}

/// Negating a condition inverts its answer on every request on which its
/// query succeeds.
pub proof fn law_negate_inverts(query: QueryView, predicate: PredicateView, request: &Request)
    requires
        query_result(query, request) is Ok,
    ensures
        (AssertView { query, predicate, not: true }).outcome(request) is Ok,
        (AssertView { query, predicate, not: false }).outcome(request) is Ok,
        (AssertView { query, predicate, not: true }).outcome(request)->Ok_0 == !(AssertView {
            query,
            predicate,
            not: false,
        }).outcome(request)->Ok_0,
{
}

/// What a condition of the source says: what it asks for, how it tests it,
/// and whether it is negated; where its query and its test stand; and its
/// filters, which nothing applies.
pub struct AssertSource {
    pub query: QuerySource,
    pub test: Test,
    pub not: bool,
    pub filters: Seq<FilterSource>,
    pub query_span: ast::SourceInfo,
    pub test_span: ast::SourceInfo,
    /// The lines before the condition that hold only blanks or a comment.
    pub lines_before: Seq<LineEndSource>,
    /// The spaces before the query.
    pub indent: BlankSource,
    /// The spaces before the predicate.
    pub gap: BlankSource,
    /// The end of the line.
    pub line_end: LineEndSource,
}

/// What an assert line of the source says.
#[verifier::opaque]
pub open spec fn assert_source(value: ast::Assert) -> AssertSource {
    AssertSource {
        query: query_source(value.query.value),
        test: test_of(value.predicate.predicate_func.value),
        not: value.predicate.not,
        filters: filter_sources(value.filters@),
        query_span: value.query.source_info,
        test_span: value.predicate.predicate_func.source_info,
        lines_before: line_end_sources(value.line_terminators@),
        indent: blank_source(value.space0),
        gap: blank_source(value.space1),
        line_end: line_end_source(value.line_terminator0),
    }
}

/// What each of a list of assert lines says.
pub open spec fn assert_sources(asserts: Seq<ast::Assert>) -> Seq<AssertSource> {
    Seq::new(asserts.len(), |i: int| assert_source(asserts[i]))
}

/// The condition that a condition of the source compiles to, or the error
/// of its query, else of its test.
pub open spec fn assert_from(source: AssertSource) -> Result<AssertView, CompilationErrorView> {
    match query_from(source.query) {
        Err(e) => Err(e),
        Ok(query) => match predicate_from(source.test) {
            Err(e) => Err(e),
            Ok(predicate) => Ok(AssertView { query, predicate, not: source.not }),
        },
    }
}

/// The condition that an assert line of the source compiles to.
pub open spec fn compiled_assert(value: ast::Assert) -> Result<AssertView, CompilationErrorView> {
    assert_from(assert_source(value))
}

/// The condition that a header line of a request compiles to: the header
/// equals the value as written.
pub open spec fn compiled_header(value: ast::Header) -> AssertView {
    AssertView {
        query: QueryView::Header(value.key.encoded_spec()),
        predicate: PredicateView::Equal(JsonView::String(value.value.encoded_spec())),
        not: false,
    }
}

impl Assert {
    /// Whether the condition can be evaluated.
    pub fn is_supported(&self) -> (r: bool)
        ensures
            r == self@.is_supported(),
    {
        let query_ok = !matches!(self.query, Query::Body | Query::Jsonpath(_));
        let predicate_ok = match &self.predicate {
            Predicate::GreaterThan(n) => !matches!(n, crate::asserts::predicate::Number::BigInteger(_)),
            Predicate::GreaterThanOrEqual(n) => !matches!(
                n,
                crate::asserts::predicate::Number::BigInteger(_)
            ),
            Predicate::LessThan(n) => !matches!(n, crate::asserts::predicate::Number::BigInteger(_)),
            Predicate::LessThanOrEqual(n) => !matches!(
                n,
                crate::asserts::predicate::Number::BigInteger(_)
            ),
            _ => true,
        };
        query_ok && predicate_ok
    }

    /// Compiles an assert line of the source.
    pub fn try_from(value: ast::Assert) -> (r: Result<Assert, AssertCompilationError>)
        ensures
            match r {
                Ok(a) => compiled_assert(value) == Ok::<_, CompilationErrorView>(a@),
                Err(e) => compiled_assert(value) == Err::<AssertView, _>(e@),
            },
    {
        proof {
            reveal(assert_source);
        }
        let query = match Query::try_from(value.query) {
            Ok(q) => q,
            Err(e) => {
                return Err(e);
            },
        };
        let not = value.predicate.not;
        let predicate = match Predicate::try_from(value.predicate) {
            Ok(p) => p,
            Err(e) => {
                return Err(e);
            },
        };
        Ok(Assert { query, predicate, not })
    }

    /// Compiles a header line of a request: the request must carry the header
    /// with exactly this value.
    pub fn try_from_header(value: ast::Header) -> (r: Result<Assert, AssertCompilationError>)
        ensures
            r matches Ok(a) && a@ == compiled_header(value),
    {
        let query = Query::Header(value.key.encoded());
        let not = false;
        let predicate = Predicate::Equal(crate::json::Json::String(value.value.encoded()));
        Ok(Assert { query, predicate, not })
    }

    /// Evaluates the condition on a request: extracts the value, tests it, and
    /// inverts the answer when the condition is negated. A query that fails
    /// makes the condition fail with its error.
    pub fn apply(&self, request: &Request) -> (r: Result<bool, AssertionError>)
        requires
            self@.is_supported(),
        ensures
            match r {
                Ok(b) => self@.outcome(request) == Ok::<_, QueryErrorView>(b),
                Err(AssertionError::InvalidQueryValue(e)) => self@.outcome(request) == Err::<
                    bool,
                    _,
                >(e@),
            },
    {
        let query_value = match self.query.apply(request) {
            Ok(value) => value,
            Err(e) => {
                return Err(AssertionError::InvalidQueryValue(e));
            },
        };
        let assertion_result = self.predicate.apply(&query_value);
        Ok(if self.not { !assertion_result } else { assertion_result })
    }
}

} // verus!
