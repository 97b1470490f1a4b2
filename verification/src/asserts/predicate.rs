//! Predicates: the tests applied to an extracted value.

use vstd::prelude::*;

use crate::asserts::{AssertCompilationError, CompilationErrorView};
use crate::ast;
use crate::decimal::{Decimal, DecimalView};
use crate::json::{lemma_array_view, lemma_object_view, Json, JsonView};
use crate::pattern::{is_match, pattern_error, pattern_found};
use crate::possibly_trim_surrounding_quotes;
use crate::text::{chars_of, contains, ends_with, occurs_in, starts_with, trimmed};

verus! {

/// A numeric operand.
#[derive(Clone, Debug, PartialEq, Eq)]
pub enum Number {
    Integer(i64),
    Float(Decimal),
    /// The digits of an integer that does not fit in 64 bits.
    BigInteger(String),
}

/// What a [`Number`] holds, as plain values.
pub enum NumberView {
    Integer(i64),
    Float(DecimalView),
    BigInteger(Seq<char>),
}

impl View for Number {
    type V = NumberView;

    open spec fn view(&self) -> NumberView {
        match self {
            Number::Integer(i) => NumberView::Integer(*i),
            Number::Float(d) => NumberView::Float(d@),
            Number::BigInteger(s) => NumberView::BigInteger(s@),
        }
    }
}

/// A test on a value.
#[derive(Debug, PartialEq, Eq)]
pub enum Predicate {
    Equal(Json),
    NotEqual(Json),
    GreaterThan(Number),
    GreaterThanOrEqual(Number),
    LessThan(Number),
    LessThanOrEqual(Number),
    StartWith(String),
    EndWith(String),
    Contain(String),
    Include(Json),
    /// The source of a regular expression.
    Match(String),
    IsInteger,
    IsFloat,
    IsBoolean,
    IsString,
    IsCollection,
    Exist,
    IsEmpty,
}

/// What a [`Predicate`] holds, as plain values.
pub enum PredicateView {
    Equal(JsonView),
    NotEqual(JsonView),
    GreaterThan(NumberView),
    GreaterThanOrEqual(NumberView),
    LessThan(NumberView),
    LessThanOrEqual(NumberView),
    StartWith(Seq<char>),
    EndWith(Seq<char>),
    Contain(Seq<char>),
    Include(JsonView),
    Match(Seq<char>),
    IsInteger,
    IsFloat,
    IsBoolean,
    IsString,
    IsCollection,
    Exist,
    IsEmpty,
}

impl View for Predicate {
    type V = PredicateView;

    open spec fn view(&self) -> PredicateView {
        match self {
            Predicate::Equal(v) => PredicateView::Equal(v@),
            Predicate::NotEqual(v) => PredicateView::NotEqual(v@),
            Predicate::GreaterThan(n) => PredicateView::GreaterThan(n@),
            Predicate::GreaterThanOrEqual(n) => PredicateView::GreaterThanOrEqual(n@),
            Predicate::LessThan(n) => PredicateView::LessThan(n@),
            Predicate::LessThanOrEqual(n) => PredicateView::LessThanOrEqual(n@),
            Predicate::StartWith(s) => PredicateView::StartWith(s@),
            Predicate::EndWith(s) => PredicateView::EndWith(s@),
            Predicate::Contain(s) => PredicateView::Contain(s@),
            Predicate::Include(v) => PredicateView::Include(v@),
            Predicate::Match(p) => PredicateView::Match(p@),
            Predicate::IsInteger => PredicateView::IsInteger,
            Predicate::IsFloat => PredicateView::IsFloat,
            Predicate::IsBoolean => PredicateView::IsBoolean,
            Predicate::IsString => PredicateView::IsString,
            Predicate::IsCollection => PredicateView::IsCollection,
            Predicate::Exist => PredicateView::Exist,
            Predicate::IsEmpty => PredicateView::IsEmpty,
        }
    }
}

/// Whether the operand `p` is greater than the subject `a`. An integer
/// operand is held against the floor of a fractional subject; a fractional
/// operand is rounded up before it is held against an integer subject.
pub open spec fn number_gt(p: NumberView, a: JsonView) -> bool {
    match (p, a) {
        (NumberView::Integer(p), JsonView::Integer(a)) => p > a,
        (NumberView::Integer(p), JsonView::Float(a)) => p > a.floor(),
        (NumberView::Float(p), JsonView::Integer(a)) => p.ceil() > a,
        (NumberView::Float(p), JsonView::Float(a)) => p.order(a) > 0,
        _ => false,
    }
}

/// Whether the operand `p` is greater than or equal to the subject `a`. An
/// integer operand is held against the floor of a fractional subject; a
/// fractional operand is rounded up before it is held against an integer
/// subject.
pub open spec fn number_gteq(p: NumberView, a: JsonView) -> bool {
    match (p, a) {
        (NumberView::Integer(p), JsonView::Integer(a)) => p >= a,
        (NumberView::Integer(p), JsonView::Float(a)) => p >= a.floor(),
        (NumberView::Float(p), JsonView::Integer(a)) => p.ceil() >= a,
        (NumberView::Float(p), JsonView::Float(a)) => p.order(a) >= 0,
        _ => false,
    }
}

/// Whether the operand `p` is less than the subject `a`. An integer operand
/// is held against the ceiling of a fractional subject; a fractional operand
/// is rounded up before it is held against an integer subject.
pub open spec fn number_lt(p: NumberView, a: JsonView) -> bool {
    match (p, a) {
        (NumberView::Integer(p), JsonView::Integer(a)) => p < a,
        (NumberView::Integer(p), JsonView::Float(a)) => p < a.ceil(),
        (NumberView::Float(p), JsonView::Integer(a)) => p.ceil() < a,
        (NumberView::Float(p), JsonView::Float(a)) => p.order(a) < 0,
        _ => false,
    }
}

/// Whether the operand `p` is less than or equal to the subject `a`. An
/// integer operand is held against the floor of a fractional subject; a
/// fractional operand is rounded down before it is held against an integer
/// subject.
pub open spec fn number_lteq(p: NumberView, a: JsonView) -> bool {
    match (p, a) {
        (NumberView::Integer(p), JsonView::Integer(a)) => p <= a,
        (NumberView::Integer(p), JsonView::Float(a)) => p <= a.floor(),
        (NumberView::Float(p), JsonView::Integer(a)) => p.floor() <= a,
        (NumberView::Float(p), JsonView::Float(a)) => p.order(a) <= 0,
        _ => false,
    }
}

/// Whether the subject includes the operand: as an element of an array, or
/// as a key of an object when the operand is a string.
pub open spec fn includes(operand: JsonView, subject: JsonView) -> bool {
    subject.has_element(operand) || (operand matches JsonView::String(key) && subject.has_key(key))
}

/// Whether the subject is an array or an object that holds nothing.
pub open spec fn is_empty(subject: JsonView) -> bool {
    match subject {
        JsonView::Array(items) => items.len() == 0,
        JsonView::Object(entries) => entries.len() == 0,
        _ => false,
    }
}

impl PredicateView {
    /// The numeric operand of an ordering predicate.
    pub open spec fn operand(self) -> Option<NumberView> {
        match self {
            PredicateView::GreaterThan(n) => Some(n),
            PredicateView::GreaterThanOrEqual(n) => Some(n),
            PredicateView::LessThan(n) => Some(n),
            PredicateView::LessThanOrEqual(n) => Some(n),
            _ => None,
        }
    }

    /// Whether the predicate can be evaluated on every value: its operand is
    /// no big integer.
    pub open spec fn is_supported(self) -> bool {
        !(self.operand() matches Some(NumberView::BigInteger(_)))
    }

    /// Whether the predicate holds of a value.
    pub open spec fn holds(self, subject: JsonView) -> bool {
        match self {
            PredicateView::Equal(v) => v == subject,
            PredicateView::NotEqual(v) => v != subject,
            PredicateView::GreaterThan(p) => number_lt(p, subject),
            PredicateView::GreaterThanOrEqual(p) => number_lteq(p, subject),
            PredicateView::LessThan(p) => number_gt(p, subject),
            PredicateView::LessThanOrEqual(p) => number_gteq(p, subject),
            PredicateView::StartWith(s) => subject matches JsonView::String(t) && s.is_prefix_of(t),
            PredicateView::EndWith(s) => subject matches JsonView::String(t) && s.is_suffix_of(t),
            PredicateView::Contain(s) => subject matches JsonView::String(t) && occurs_in(s, t),
            PredicateView::Include(v) => includes(v, subject),
            PredicateView::Match(p) => subject matches JsonView::String(t) && pattern_error(p)
                is None && pattern_found(p, t),
            PredicateView::IsInteger => subject is Integer,
            PredicateView::IsFloat => subject is Float,
            PredicateView::IsBoolean => subject is Bool,
            PredicateView::IsString => subject is String,
            PredicateView::IsCollection => subject.is_collection(),
            PredicateView::Exist => !(subject is Null),
            PredicateView::IsEmpty => is_empty(subject),
        }
    }
}

/// How each ordering predicate holds an operand `P` against a subject `A`,
/// for every pairing of whole and fractional numbers: numbers of one kind
/// are compared directly, and across kinds the fractional one is rounded.
/// The order, the floor and the ceiling of fractional numbers are those of
/// the numbers they denote: see `decimal_order`.
pub proof fn law_numeric_table(p: i64, pf: DecimalView, a: i64, af: DecimalView)
    ensures
        PredicateView::GreaterThan(NumberView::Integer(p)).holds(JsonView::Integer(a)) == (p < a),
        PredicateView::GreaterThan(NumberView::Integer(p)).holds(JsonView::Float(af)) == (p
            < af.ceil()),
        PredicateView::GreaterThan(NumberView::Float(pf)).holds(JsonView::Integer(a)) == (pf.ceil()
            < a),
        PredicateView::GreaterThan(NumberView::Float(pf)).holds(JsonView::Float(af)) == (pf.order(af)
            < 0),
        PredicateView::GreaterThanOrEqual(NumberView::Integer(p)).holds(JsonView::Integer(a)) == (p
            <= a),
        PredicateView::GreaterThanOrEqual(NumberView::Integer(p)).holds(JsonView::Float(af)) == (p
            <= af.floor()),
        PredicateView::GreaterThanOrEqual(NumberView::Float(pf)).holds(JsonView::Integer(a)) == (
        pf.floor() <= a),
        PredicateView::GreaterThanOrEqual(NumberView::Float(pf)).holds(JsonView::Float(af)) == (
        pf.order(af) <= 0),
        PredicateView::LessThan(NumberView::Integer(p)).holds(JsonView::Integer(a)) == (a < p),
        PredicateView::LessThan(NumberView::Integer(p)).holds(JsonView::Float(af)) == (p
            > af.floor()),
        PredicateView::LessThan(NumberView::Float(pf)).holds(JsonView::Integer(a)) == (pf.ceil()
            > a),
        PredicateView::LessThan(NumberView::Float(pf)).holds(JsonView::Float(af)) == (pf.order(af)
            > 0),
        PredicateView::LessThanOrEqual(NumberView::Integer(p)).holds(JsonView::Integer(a)) == (a
            <= p),
        PredicateView::LessThanOrEqual(NumberView::Integer(p)).holds(JsonView::Float(af)) == (p
            >= af.floor()),
        PredicateView::LessThanOrEqual(NumberView::Float(pf)).holds(JsonView::Integer(a)) == (
        pf.ceil() >= a),
        PredicateView::LessThanOrEqual(NumberView::Float(pf)).holds(JsonView::Float(af)) == (
        pf.order(af) >= 0),
{
}

/// A subject that is no number meets no ordering predicate.
pub proof fn law_ordering_needs_number(p: NumberView, subject: JsonView)
    requires
        !subject.is_number(),
    ensures
        !PredicateView::GreaterThan(p).holds(subject),
        !PredicateView::GreaterThanOrEqual(p).holds(subject),
        !PredicateView::LessThan(p).holds(subject),
        !PredicateView::LessThanOrEqual(p).holds(subject),
{
}

/// Whether the operand can be held against the subject: a big integer can be
/// held against nothing but a value that is no number.
pub open spec fn comparable(p: NumberView, a: JsonView) -> bool {
    !(p is BigInteger) || !a.is_number()
}

pub fn compare_eq(first: &Json, second: &Json) -> (r: bool)
    ensures
        r == (first@ == second@),
{
    first.equals(second)
}

pub fn compare_ne(first: &Json, second: &Json) -> (r: bool)
    ensures
        r == (first@ != second@),
{
    !first.equals(second)
}

pub fn compare_gt(first: &Number, second: &Json) -> (r: bool)
    requires
        comparable(first@, second@),
    ensures
        r == number_gt(first@, second@),
{
    match second {
        Json::Integer(a) => match first {
            Number::Integer(p) => *p > *a,
            Number::Float(p) => p.ceil_order(*a) > 0,
            Number::BigInteger(_) => false,
        },
        Json::Float(a) => match first {
            Number::Integer(p) => a.floor_order(*p) < 0,
            Number::Float(p) => p.compare(a) > 0,
            Number::BigInteger(_) => false,
        },
        _ => false,
    }
}

pub fn compare_gteq(first: &Number, second: &Json) -> (r: bool)
    requires
        comparable(first@, second@),
    ensures
        r == number_gteq(first@, second@),
{
    match second {
        Json::Integer(a) => match first {
            Number::Integer(p) => *p >= *a,
            Number::Float(p) => p.ceil_order(*a) >= 0,
            Number::BigInteger(_) => false,
        },
        Json::Float(a) => match first {
            Number::Integer(p) => a.floor_order(*p) <= 0,
            Number::Float(p) => p.compare(a) >= 0,
            Number::BigInteger(_) => false,
        },
        _ => false,
    }
}

pub fn compare_lt(first: &Number, second: &Json) -> (r: bool)
    requires
        comparable(first@, second@),
    ensures
        r == number_lt(first@, second@),
{
    match second {
        Json::Integer(a) => match first {
            Number::Integer(p) => *p < *a,
            Number::Float(p) => p.ceil_order(*a) < 0,
            Number::BigInteger(_) => false,
        },
        Json::Float(a) => match first {
            Number::Integer(p) => a.ceil_order(*p) > 0,
            Number::Float(p) => p.compare(a) < 0,
            Number::BigInteger(_) => false,
        },
        _ => false,
    }
}

pub fn compare_lteq(first: &Number, second: &Json) -> (r: bool)
    requires
        comparable(first@, second@),
    ensures
        r == number_lteq(first@, second@),
{
    match second {
        Json::Integer(a) => match first {
            Number::Integer(p) => *p <= *a,
            Number::Float(p) => p.floor_order(*a) <= 0,
            Number::BigInteger(_) => false,
        },
        Json::Float(a) => match first {
            Number::Integer(p) => a.floor_order(*p) >= 0,
            Number::Float(p) => p.compare(a) <= 0,
            Number::BigInteger(_) => false,
        },
        _ => false,
    }
}

pub fn compare_start_with(first: &String, second: &Json) -> (r: bool)
    ensures
        r == (second@ matches JsonView::String(t) && first@.is_prefix_of(t)),
{
    match second {
        Json::String(second) => starts_with(&chars_of(second.as_str()), &chars_of(first.as_str())),
        _ => false,
    }
}

pub fn compare_end_with(first: &String, second: &Json) -> (r: bool)
    ensures
        r == (second@ matches JsonView::String(t) && first@.is_suffix_of(t)),
{
    match second {
        Json::String(second) => ends_with(&chars_of(second.as_str()), &chars_of(first.as_str())),
        _ => false,
    }
}

pub fn compare_contain(first: &String, second: &Json) -> (r: bool)
    ensures
        r == (second@ matches JsonView::String(t) && occurs_in(first@, t)),
{
    match second {
        Json::String(second) => contains(&chars_of(second.as_str()), &chars_of(first.as_str())),
        _ => false,
    }
}

pub fn compare_include(first: &Json, second: &Json) -> (r: bool)
    ensures
        r == includes(first@, second@),
{
    match second {
        Json::Array(items) => {
            proof {
                lemma_array_view(*items);
            }
            let mut i: usize = 0;
            while i < items.len()
                invariant
                    i <= items.len(),
                    *second == Json::Array(*items),
                    forall|k: int| 0 <= k < i ==> (#[trigger] items@[k])@ != first@,
                decreases items.len() - i,
            {
                if items[i].equals(first) {
                    proof {
                        lemma_array_view(*items);
                        assert(second@->Array_0[i as int] == first@);
                    }
                    return true;
                }
                i += 1;
            }
            proof {
                lemma_array_view(*items);
            }
            false
        },
        Json::Object(entries) => {
            proof {
                lemma_object_view(*entries);
            }
            match first {
                Json::String(key) => {
                    let mut i: usize = 0;
                    while i < entries.len()
                        invariant
                            i <= entries.len(),
                            *second == Json::Object(*entries),
                            *first == Json::String(*key),
                            forall|k: int| 0 <= k < i ==> (#[trigger] entries@[k]).0@ != key@,
                        decreases entries.len() - i,
                    {
                        if entries[i].0 == *key {
                            proof {
                                lemma_object_view(*entries);
                                assert(second@->Object_0[i as int].0 == key@);
                            }
                            return true;
                        }
                        i += 1;
                    }
                    proof {
                        lemma_object_view(*entries);
                    }
                    false
                },
                _ => false,
            }
        },
        _ => false,
    }
}

pub fn compare_match(first: &String, second: &Json) -> (r: bool)
    ensures
        r == (second@ matches JsonView::String(t) && pattern_error(first@) is None
            && pattern_found(first@, t)),
{
    match second {
        Json::String(second) => is_match(first.as_str(), second.as_str()),
        _ => false,
    }
}

pub fn compare_is_integer(second: &Json) -> (r: bool)
    ensures
        r == (second@ is Integer),
{
    matches!(second, Json::Integer(_))
}

pub fn compare_is_float(second: &Json) -> (r: bool)
    ensures
        r == (second@ is Float),
{
    matches!(second, Json::Float(_))
}

pub fn compare_is_boolean(second: &Json) -> (r: bool)
    ensures
        r == (second@ is Bool),
{
    matches!(second, Json::Bool(_))
}

pub fn compare_is_string(second: &Json) -> (r: bool)
    ensures
        r == (second@ is String),
{
    matches!(second, Json::String(_))
}

pub fn compare_is_collection(second: &Json) -> (r: bool)
    ensures
        r == second@.is_collection(),
{
    matches!(second, Json::Array(_) | Json::Object(_))
}

pub fn compare_exist(second: &Json) -> (r: bool)
    ensures
        r == !(second@ is Null),
{
    !matches!(second, Json::Null)
}

pub fn compare_is_empty(second: &Json) -> (r: bool)
    ensures
        r == is_empty(second@),
{
    match second {
        Json::Array(arr) => {
            proof {
                lemma_array_view(*arr);
            }
            arr.len() == 0
        },
        Json::Object(obj) => {
            proof {
                lemma_object_view(*obj);
            }
            obj.len() == 0
        },
        _ => false,
    }
}

/// What is said of an operand of a kind that no value can equal.
pub open spec fn unsupported_type() -> Seq<char> {
    "unsupported type"@
}

/// What is said of an integer operand that does not fit in 64 bits.
pub open spec fn unsupported_big_integer() -> Seq<char> {
    "big integers are not supported"@
}

/// The operand of a test of the source: its kind and what it holds, a
/// string as it was written.
pub enum Operand {
    Null,
    Bool(bool),
    Number(NumberView),
    String(Seq<char>),
    Regex(Seq<char>),
    /// A kind of operand that only the grammar knows.
    Other,
}

/// The number that a number of the source holds.
pub open spec fn number_source(value: ast::Number) -> NumberView {
    match value {
        ast::Number::Float(f) => NumberView::Float(f.value@),
        ast::Number::Integer(i) => NumberView::Integer(i),
        ast::Number::BigInteger(s) => NumberView::BigInteger(s@),
    }
}

/// The operand of a test of the source.
pub open spec fn operand_of(value: ast::PredicateValue) -> Operand {
    match value {
        ast::PredicateValue::Null => Operand::Null,
        ast::PredicateValue::Bool(b) => Operand::Bool(b),
        ast::PredicateValue::Number(n) => Operand::Number(number_source(n)),
        ast::PredicateValue::String(t) => Operand::String(t.encoded_spec()),
        ast::PredicateValue::Regex(r) => Operand::Regex(r.inner@),
        _ => Operand::Other,
    }
}

/// The value that an operand stands for.
pub open spec fn value_from(operand: Operand) -> Result<JsonView, CompilationErrorView> {
    match operand {
        Operand::String(s) => Ok(JsonView::String(trimmed(s))),
        Operand::Number(NumberView::Float(f)) => Ok(JsonView::Float(f)),
        Operand::Number(NumberView::Integer(i)) => Ok(JsonView::Integer(i)),
        Operand::Number(NumberView::BigInteger(_)) => Err(
            CompilationErrorView::InvalidPredicateValue(unsupported_big_integer()),
        ),
        Operand::Bool(b) => Ok(JsonView::Bool(b)),
        Operand::Null => Ok(JsonView::Null),
        _ => Err(CompilationErrorView::InvalidPredicateValue(unsupported_type())),
    }
}

/// The operand of a test is never a list or an object. So a list or an
/// object equals no operand, whatever the order of its entries: equality
/// never rests on the order in which an object holds them.
pub proof fn law_operands_are_no_collections(operand: Operand, subject: JsonView)
    requires
        value_from(operand) is Ok,
        subject.is_collection(),
    ensures
        !value_from(operand)->Ok_0.is_collection(),
        !PredicateView::Equal(value_from(operand)->Ok_0).holds(subject),
        PredicateView::NotEqual(value_from(operand)->Ok_0).holds(subject),
{
}

/// The number that an operand stands for.
pub open spec fn number_from(operand: Operand) -> Result<NumberView, CompilationErrorView> {
    match operand {
        Operand::Number(n) => Ok(n),
        _ => Err(CompilationErrorView::InvalidPredicateValue("expected number"@)),
    }
}

/// The string that an operand stands for: the literal without its
/// delimiters.
pub open spec fn string_from(operand: Operand) -> Result<Seq<char>, CompilationErrorView> {
    match operand {
        Operand::String(s) => Ok(trimmed(s)),
        _ => Err(CompilationErrorView::InvalidPredicateValue("expected string"@)),
    }
}

/// The regular expression that an operand stands for.
pub open spec fn regex_from(operand: Operand) -> Result<Seq<char>, CompilationErrorView> {
    match operand {
        Operand::Regex(r) => Ok(r),
        _ => Err(CompilationErrorView::InvalidPredicateValue("expected regex"@)),
    }
}

/// The value that an operand of the source stands for.
pub open spec fn compiled_value(value: ast::PredicateValue) -> Result<JsonView, CompilationErrorView> {
    value_from(operand_of(value))
}

/// The number that an operand of the source stands for.
pub open spec fn compiled_number(value: ast::PredicateValue) -> Result<
    NumberView,
    CompilationErrorView,
> {
    number_from(operand_of(value))
}

/// The string that an operand of the source stands for: the literal without
/// its delimiters.
pub open spec fn compiled_string(value: ast::PredicateValue) -> Result<
    Seq<char>,
    CompilationErrorView,
> {
    string_from(operand_of(value))
}

/// The regular expression that an operand of the source stands for.
pub open spec fn compiled_regex(value: ast::PredicateValue) -> Result<
    Seq<char>,
    CompilationErrorView,
> {
    regex_from(operand_of(value))
}

pub fn try_into_json(value: ast::PredicateValue) -> (r: Result<Json, AssertCompilationError>)
    ensures
        match r {
            Ok(v) => compiled_value(value) == Ok::<_, CompilationErrorView>(v@),
            Err(e) => compiled_value(value) == Err::<JsonView, _>(e@),
        },
{
    match value {
        ast::PredicateValue::String(value) => Ok(
            Json::String(possibly_trim_surrounding_quotes(value.encoded())),
        ),
        ast::PredicateValue::Number(value) => match value {
            ast::Number::Float(f) => Ok(Json::Float(f.value)),
            ast::Number::Integer(i) => Ok(Json::Integer(i)),
            ast::Number::BigInteger(_) => Err(
                AssertCompilationError::InvalidPredicateValue(
                    "big integers are not supported".to_string(),
                ),
            ),
        },
        ast::PredicateValue::Bool(value) => Ok(Json::Bool(value)),
        ast::PredicateValue::Null => Ok(Json::Null),
        _ => Err(AssertCompilationError::InvalidPredicateValue("unsupported type".to_string())),
    }
}

pub fn try_into_number(value: ast::PredicateValue) -> (r: Result<Number, AssertCompilationError>)
    ensures
        match r {
            Ok(v) => compiled_number(value) == Ok::<_, CompilationErrorView>(v@),
            Err(e) => compiled_number(value) == Err::<NumberView, _>(e@),
        },
{
    match value {
        ast::PredicateValue::Number(value) => match value {
            ast::Number::Float(f) => Ok(Number::Float(f.value)),
            ast::Number::Integer(i) => Ok(Number::Integer(i)),
            ast::Number::BigInteger(i) => Ok(Number::BigInteger(i)),
        },
        _ => Err(AssertCompilationError::InvalidPredicateValue("expected number".to_string())),
    }
}

pub fn try_into_string(value: ast::PredicateValue) -> (r: Result<String, AssertCompilationError>)
    ensures
        match r {
            Ok(v) => compiled_string(value) == Ok::<_, CompilationErrorView>(v@),
            Err(e) => compiled_string(value) == Err::<Seq<char>, _>(e@),
        },
{
    match value {
        ast::PredicateValue::String(value) => Ok(possibly_trim_surrounding_quotes(value.encoded())),
        _ => Err(AssertCompilationError::InvalidPredicateValue("expected string".to_string())),
    }
}

pub fn try_into_regex(value: ast::PredicateValue) -> (r: Result<String, AssertCompilationError>)
    ensures
        match r {
            Ok(v) => compiled_regex(value) == Ok::<_, CompilationErrorView>(v@),
            Err(e) => compiled_regex(value) == Err::<Seq<char>, _>(e@),
        },
{
    match value {
        ast::PredicateValue::Regex(value) => Ok(value.inner),
        _ => Err(AssertCompilationError::InvalidPredicateValue("expected regex".to_string())),
    }
}

/// The test of a predicate of the source: its kind and its operand.
pub enum Test {
    Equal(Operand),
    NotEqual(Operand),
    GreaterThan(Operand),
    GreaterThanOrEqual(Operand),
    LessThan(Operand),
    LessThanOrEqual(Operand),
    StartWith(Operand),
    EndWith(Operand),
    Contain(Operand),
    Include(Operand),
    Match(Operand),
    IsInteger,
    IsFloat,
    IsBoolean,
    IsString,
    IsCollection,
    Exist,
    IsEmpty,
    /// A kind of test that only the grammar knows.
    Other,
}

/// The test of a predicate of the source.
pub open spec fn test_of(value: ast::PredicateFuncValue) -> Test {
    match value {
        ast::PredicateFuncValue::Equal { value, .. } => Test::Equal(operand_of(value)),
        ast::PredicateFuncValue::NotEqual { value, .. } => Test::NotEqual(operand_of(value)),
        ast::PredicateFuncValue::GreaterThan { value, .. } => Test::GreaterThan(operand_of(value)),
        ast::PredicateFuncValue::GreaterThanOrEqual { value, .. } => Test::GreaterThanOrEqual(
            operand_of(value),
        ),
        ast::PredicateFuncValue::LessThan { value, .. } => Test::LessThan(operand_of(value)),
        ast::PredicateFuncValue::LessThanOrEqual { value, .. } => Test::LessThanOrEqual(
            operand_of(value),
        ),
        ast::PredicateFuncValue::StartWith { value, .. } => Test::StartWith(operand_of(value)),
        ast::PredicateFuncValue::EndWith { value, .. } => Test::EndWith(operand_of(value)),
        ast::PredicateFuncValue::Contain { value, .. } => Test::Contain(operand_of(value)),
        ast::PredicateFuncValue::Include { value, .. } => Test::Include(operand_of(value)),
        ast::PredicateFuncValue::Match { value, .. } => Test::Match(operand_of(value)),
        ast::PredicateFuncValue::IsInteger => Test::IsInteger,
        ast::PredicateFuncValue::IsFloat => Test::IsFloat,
        ast::PredicateFuncValue::IsBoolean => Test::IsBoolean,
        ast::PredicateFuncValue::IsString => Test::IsString,
        ast::PredicateFuncValue::IsCollection => Test::IsCollection,
        ast::PredicateFuncValue::Exist => Test::Exist,
        ast::PredicateFuncValue::IsEmpty => Test::IsEmpty,
        _ => Test::Other,
    }
}

/// The predicate that a test compiles to: equality and inclusion take any
/// value, the orderings a number, the string relations a string, and
/// matching a regular expression. The kinds of test that only the grammar
/// knows do not compile.
pub open spec fn predicate_from(test: Test) -> Result<PredicateView, CompilationErrorView> {
    match test {
        Test::Equal(o) => match value_from(o) {
            Ok(v) => Ok(PredicateView::Equal(v)),
            Err(e) => Err(e),
        },
        Test::NotEqual(o) => match value_from(o) {
            Ok(v) => Ok(PredicateView::NotEqual(v)),
            Err(e) => Err(e),
        },
        Test::GreaterThan(o) => match number_from(o) {
            Ok(v) => Ok(PredicateView::GreaterThan(v)),
            Err(e) => Err(e),
        },
        Test::GreaterThanOrEqual(o) => match number_from(o) {
            Ok(v) => Ok(PredicateView::GreaterThanOrEqual(v)),
            Err(e) => Err(e),
        },
        Test::LessThan(o) => match number_from(o) {
            Ok(v) => Ok(PredicateView::LessThan(v)),
            Err(e) => Err(e),
        },
        Test::LessThanOrEqual(o) => match number_from(o) {
            Ok(v) => Ok(PredicateView::LessThanOrEqual(v)),
            Err(e) => Err(e),
        },
        Test::StartWith(o) => match string_from(o) {
            Ok(v) => Ok(PredicateView::StartWith(v)),
            Err(e) => Err(e),
        },
        Test::EndWith(o) => match string_from(o) {
            Ok(v) => Ok(PredicateView::EndWith(v)),
            Err(e) => Err(e),
        },
        Test::Contain(o) => match string_from(o) {
            Ok(v) => Ok(PredicateView::Contain(v)),
            Err(e) => Err(e),
        },
        Test::Include(o) => match value_from(o) {
            Ok(v) => Ok(PredicateView::Include(v)),
            Err(e) => Err(e),
        },
        Test::Match(o) => match regex_from(o) {
            Ok(v) => Ok(PredicateView::Match(v)),
            Err(e) => Err(e),
        },
        Test::IsInteger => Ok(PredicateView::IsInteger),
        Test::IsFloat => Ok(PredicateView::IsFloat),
        Test::IsBoolean => Ok(PredicateView::IsBoolean),
        Test::IsString => Ok(PredicateView::IsString),
        Test::IsCollection => Ok(PredicateView::IsCollection),
        Test::Exist => Ok(PredicateView::Exist),
        Test::IsEmpty => Ok(PredicateView::IsEmpty),
        Test::Other => Err(CompilationErrorView::InvalidPredicate),
    }
}

/// The predicate that a predicate of the source compiles to.
pub open spec fn compiled_predicate(value: ast::Predicate) -> Result<
    PredicateView,
    CompilationErrorView,
> {
    predicate_from(test_of(value.predicate_func.value))
}

impl Predicate {
    /// Compiles a predicate of the source.
    pub fn try_from(value: ast::Predicate) -> (r: Result<Predicate, AssertCompilationError>)
        ensures
            match r {
                Ok(p) => compiled_predicate(value) == Ok::<_, CompilationErrorView>(p@),
                Err(e) => compiled_predicate(value) == Err::<PredicateView, _>(e@),
            },
    {
        match value.predicate_func.value {
            ast::PredicateFuncValue::Equal { value, .. } => match try_into_json(value) {
                Ok(v) => Ok(Predicate::Equal(v)),
                Err(e) => Err(e),
            },
            ast::PredicateFuncValue::NotEqual { value, .. } => match try_into_json(value) {
                Ok(v) => Ok(Predicate::NotEqual(v)),
                Err(e) => Err(e),
            },
            ast::PredicateFuncValue::GreaterThan { value, .. } => match try_into_number(value) {
                Ok(v) => Ok(Predicate::GreaterThan(v)),
                Err(e) => Err(e),
            },
            ast::PredicateFuncValue::GreaterThanOrEqual { value, .. } => match try_into_number(
                value,
            ) {
                Ok(v) => Ok(Predicate::GreaterThanOrEqual(v)),
                Err(e) => Err(e),
            },
            ast::PredicateFuncValue::LessThan { value, .. } => match try_into_number(value) {
                Ok(v) => Ok(Predicate::LessThan(v)),
                Err(e) => Err(e),
            },
            ast::PredicateFuncValue::LessThanOrEqual { value, .. } => match try_into_number(value) {
                Ok(v) => Ok(Predicate::LessThanOrEqual(v)),
                Err(e) => Err(e),
            },
            ast::PredicateFuncValue::StartWith { value, .. } => match try_into_string(value) {
                Ok(v) => Ok(Predicate::StartWith(v)),
                Err(e) => Err(e),
            },
            ast::PredicateFuncValue::EndWith { value, .. } => match try_into_string(value) {
                Ok(v) => Ok(Predicate::EndWith(v)),
                Err(e) => Err(e),
            },
            ast::PredicateFuncValue::Contain { value, .. } => match try_into_string(value) {
                Ok(v) => Ok(Predicate::Contain(v)),
                Err(e) => Err(e),
            },
            ast::PredicateFuncValue::Include { value, .. } => match try_into_json(value) {
                Ok(v) => Ok(Predicate::Include(v)),
                Err(e) => Err(e),
            },
            ast::PredicateFuncValue::Match { value, .. } => match try_into_regex(value) {
                Ok(v) => Ok(Predicate::Match(v)),
                Err(e) => Err(e),
            },
            ast::PredicateFuncValue::IsInteger => Ok(Predicate::IsInteger),
            ast::PredicateFuncValue::IsFloat => Ok(Predicate::IsFloat),
            ast::PredicateFuncValue::IsBoolean => Ok(Predicate::IsBoolean),
            ast::PredicateFuncValue::IsString => Ok(Predicate::IsString),
            ast::PredicateFuncValue::IsCollection => Ok(Predicate::IsCollection),
            ast::PredicateFuncValue::Exist => Ok(Predicate::Exist),
            ast::PredicateFuncValue::IsEmpty => Ok(Predicate::IsEmpty),
            _ => Err(AssertCompilationError::InvalidPredicate),
        }
    }

    /// Tests a value.
    pub fn apply(&self, against: &Json) -> (r: bool)
        requires
            self@.operand() matches Some(p) ==> comparable(p, against@),
        ensures
            r == self@.holds(against@),
    {
        match self {
            Predicate::Equal(value) => compare_eq(value, against),
            Predicate::NotEqual(value) => compare_ne(value, against),
            Predicate::GreaterThan(value) => compare_lt(value, against),
            Predicate::GreaterThanOrEqual(value) => compare_lteq(value, against),
            Predicate::LessThan(value) => compare_gt(value, against),
            Predicate::LessThanOrEqual(value) => compare_gteq(value, against),
            Predicate::StartWith(value) => compare_start_with(value, against),
            Predicate::EndWith(value) => compare_end_with(value, against),
            Predicate::Contain(value) => compare_contain(value, against),
            Predicate::Include(value) => compare_include(value, against),
            Predicate::Match(value) => compare_match(value, against),
            Predicate::IsInteger => compare_is_integer(against),
            Predicate::IsFloat => compare_is_float(against),
            Predicate::IsBoolean => compare_is_boolean(against),
            Predicate::IsString => compare_is_string(against),
            Predicate::IsCollection => compare_is_collection(against),
            Predicate::Exist => compare_exist(against),
            Predicate::IsEmpty => compare_is_empty(against),
        }
    }
}

} // verus!
