//! Regular expressions, as the `regex` crate reads them.

use vstd::prelude::*;

use regex::Regex;

verus! {

/// Why `pattern` is no regular expression, or `None` when it is one.
pub uninterp spec fn pattern_error(pattern: Seq<char>) -> Option<Seq<char>>;

/// Whether `pattern`, a regular expression, matches somewhere in `text`.
pub uninterp spec fn pattern_found(pattern: Seq<char>, text: Seq<char>) -> bool;

/// Why `pattern` does not compile, or `None` when it does.
///
/// Trusted: the message of the error of `Regex::new`. The result is named,
/// not described.
#[verifier::external_body]
pub(crate) fn syntax_error(pattern: &str) -> (r: Option<String>)
    ensures
        match r {
            Some(message) => pattern_error(pattern@) == Some(message@),
            None => pattern_error(pattern@) is None,
        },
{
    Regex::new(pattern).err().map(|e| e.to_string())
}

/// Whether `pattern` compiles and matches somewhere in `text`.
///
/// Trusted: `Regex::new` followed by `Regex::is_match`; a pattern that does
/// not compile matches nothing. The result is named, not described.
#[verifier::external_body]
pub(crate) fn is_match(pattern: &str, text: &str) -> (r: bool)
    ensures
        r == (pattern_error(pattern@) is None && pattern_found(pattern@, text@)),
{
    Regex::new(pattern).is_ok_and(|re| re.is_match(text))
}

} // verus!
