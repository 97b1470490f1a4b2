//! What the filters of a capture or of an assert say. Filters are read and
//! kept; nothing applies them yet.

use vstd::prelude::*;

use crate::ast;

verus! {

/// What the pattern of a filter says: a quoted string as it was written, or
/// a regular expression.
pub enum PatternSource {
    Text(Seq<char>),
    Pattern(Seq<char>),
}

/// What a pattern of the source says.
pub open spec fn pattern_source(value: ast::RegexValue) -> PatternSource {
    match value {
        ast::RegexValue::Template(t) => PatternSource::Text(t.encoded_spec()),
        ast::RegexValue::Regex(r) => PatternSource::Pattern(r.inner@),
    }
}

/// The kind of a filter, with its operands: quoted strings as they were
/// written, a number, or a pattern.
pub enum FilterKind {
    Count,
    Decode(Seq<char>),
    Format(Seq<char>),
    HtmlEscape,
    HtmlUnescape,
    JsonPath(Seq<char>),
    Nth(u64),
    Regex(PatternSource),
    Replace(PatternSource, Seq<char>),
    Split(Seq<char>),
    ToInt,
    UrlDecode,
    UrlEncode,
    XPath(Seq<char>),
}

/// The kind of a filter of the source.
pub open spec fn filter_kind(value: ast::FilterValue) -> FilterKind {
    match value {
        ast::FilterValue::Count => FilterKind::Count,
        ast::FilterValue::Decode { encoding, .. } => FilterKind::Decode(encoding.encoded_spec()),
        ast::FilterValue::Format { fmt, .. } => FilterKind::Format(fmt.encoded_spec()),
        ast::FilterValue::HtmlEscape => FilterKind::HtmlEscape,
        ast::FilterValue::HtmlUnescape => FilterKind::HtmlUnescape,
        ast::FilterValue::JsonPath { expr, .. } => FilterKind::JsonPath(expr.encoded_spec()),
        ast::FilterValue::Nth { n, .. } => FilterKind::Nth(n),
        ast::FilterValue::Regex { value, .. } => FilterKind::Regex(pattern_source(value)),
        ast::FilterValue::Replace { old_value, new_value, .. } => FilterKind::Replace(
            pattern_source(old_value),
            new_value.encoded_spec(),
        ),
        ast::FilterValue::Split { sep, .. } => FilterKind::Split(sep.encoded_spec()),
        ast::FilterValue::ToInt => FilterKind::ToInt,
        ast::FilterValue::UrlDecode => FilterKind::UrlDecode,
        ast::FilterValue::UrlEncode => FilterKind::UrlEncode,
        ast::FilterValue::XPath { expr, .. } => FilterKind::XPath(expr.encoded_spec()),
    }
}

/// What a filter says: its kind with its operands, and where it stands.
pub struct FilterSource {
    pub kind: FilterKind,
    pub span: ast::SourceInfo,
}

/// What a filter of the source says.
#[verifier::opaque]
pub open spec fn filter_source(filter: ast::Filter) -> FilterSource {
    FilterSource { kind: filter_kind(filter.value), span: filter.source_info }
}

/// What each of a list of filters says.
pub open spec fn filter_sources(filters: Seq<(ast::Whitespace, ast::Filter)>) -> Seq<FilterSource> {
    Seq::new(filters.len(), |i: int| filter_source(filters[i].1))
}

} // verus!
