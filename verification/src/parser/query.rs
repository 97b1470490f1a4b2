//! Queries: what an assert or a capture extracts from a request.

use vstd::prelude::*;

use crate::asserts::query::{query_source, QuerySource};
use crate::ast::{
    CookieAttribute, CookieAttributeName, CookiePath, Pos, Query, QueryValue, RegexValue,
    SourceInfo, Template, Whitespace,
};
use crate::filters::{pattern_source, PatternSource};
use crate::http::{lower_case, lowered};
use crate::parser::error::{Error, ParseError, ParseErrorView};
use crate::parser::primitives::{
    eof, expecting, fail, literal, literal_at, one_or_more_spaces, one_or_more_spaces_at, parsed,
    spaces_end, try_literal, try_literal_at, zero_or_more_spaces, Outcome, ParseResult,
};
use crate::parser::reader::{next, run_end, successor, CharClass, Reader, Source};
use crate::parser::regex::{regex, regex_at, regex_source};
use crate::parser::string::{
    delimited_template_at, quoted_oneline_string, quoted_oneline_string_at, quoted_template,
    unquoted_template, unquoted_template_at,
};
use crate::text::chars_of;

verus! {

/// The rule of the operand of a query that takes a quoted string: spaces,
/// then the string.
pub open spec fn quoted_operand_at(src: Source, i: int) -> Outcome {
    match one_or_more_spaces_at(src, i) {
        Outcome::Done(a) => match delimited_template_at(src, a, '"') {
            Outcome::Done(b) => Outcome::Done(b),
            Outcome::Failed(e) => fail(e.pos, false, expecting("\""@)),
        },
        Outcome::Failed(e) => Outcome::Failed(e),
    }
}

/// The rule of `regex_value`: a quoted string, else a regular expression
/// between slashes.
pub open spec fn regex_value_at(src: Source, i: int) -> Outcome {
    match delimited_template_at(src, i, '"') {
        Outcome::Done(j) => Outcome::Done(j),
        Outcome::Failed(e) => if e.recoverable {
            match regex_at(src, i) {
                Outcome::Done(j) => Outcome::Done(j),
                Outcome::Failed(e) => fail(e.pos, false, expecting("\" or /"@)),
            }
        } else {
            fail(e.pos, false, expecting("\" or /"@))
        },
    }
}

/// What the pattern that the rule of `regex_value` reads at `i` says.
pub open spec fn pattern_source_at(src: Source, i: int) -> PatternSource {
    match delimited_template_at(src, i, '"') {
        Outcome::Done(j) => PatternSource::Text(src.text.subrange(i, j)),
        Outcome::Failed(_) => PatternSource::Pattern(regex_source(src, i)),
    }
}

/// Whether `name` names an attribute of a cookie, whatever the case of its
/// letters.
pub open spec fn is_cookie_attribute(name: Seq<char>) -> bool {
    ||| lowered(name) == "value"@
    ||| lowered(name) == "expires"@
    ||| lowered(name) == "max-age"@
    ||| lowered(name) == "domain"@
    ||| lowered(name) == "path"@
    ||| lowered(name) == "secure"@
    ||| lowered(name) == "httponly"@
    ||| lowered(name) == "samesite"@
}

/// The rule of the attribute of a cookie path: an opening bracket, spaces,
/// the name of an attribute, spaces, a closing bracket.
pub open spec fn cookiepath_attribute_at(src: Source, i: int) -> Outcome {
    match try_literal_at(src, i, "["@) {
        Outcome::Done(a) => {
            let b = spaces_end(src.text, a);
            let c = run_end(src.text, CharClass::Attribute, b);
            if !is_cookie_attribute(src.text.subrange(b, c)) {
                fail(src.pos(b), false, ParseErrorView::InvalidCookieAttribute)
            } else {
                literal_at(src, spaces_end(src.text, c), "]"@)
            }
        },
        Outcome::Failed(e) => Outcome::Failed(e),
    }
}

/// The text of a name and the place where it starts.
pub open spec fn part(src: Source, from: int, to: int) -> Source {
    Source { origin: src.pos(from), text: src.text.subrange(from, to) }
}

/// The rule of `cookiepath`: the name of a cookie, which is everything up
/// to a bracket, and optionally an attribute between brackets.
pub open spec fn cookiepath_at(src: Source, i: int) -> Outcome {
    let n = run_end(src.text, CharClass::NotBracket, i);
    match unquoted_template_at(part(src, i, n), 0) {
        Outcome::Done(_) => match cookiepath_attribute_at(src, n) {
            Outcome::Done(j) => Outcome::Done(j),
            Outcome::Failed(e) => if e.recoverable {
                Outcome::Done(n)
            } else {
                Outcome::Failed(e)
            },
        },
        Outcome::Failed(e) => Outcome::Failed(e),
    }
}

/// The place one column to the right of `pos`.
pub open spec fn right_of(pos: Pos) -> Pos {
    Pos { line: pos.line, column: next(pos.column) }
}

/// The rule of the operand of a cookie query: spaces, then a cookie path
/// that fills a quoted string.
pub open spec fn cookie_operand_at(src: Source, i: int) -> Outcome {
    match one_or_more_spaces_at(src, i) {
        Outcome::Done(a) => match quoted_oneline_string_at(src, a) {
            Outcome::Done(j) => {
                let inner = Source {
                    origin: right_of(src.pos(a)),
                    text: src.text.subrange(a + 1, j - 1),
                };
                match cookiepath_at(inner, 0) {
                    Outcome::Done(k) => if k == inner.len() {
                        Outcome::Done(j)
                    } else {
                        fail(inner.pos(k), false, ParseErrorView::InvalidCookieAttribute)
                    },
                    Outcome::Failed(e) => Outcome::Failed(e),
                }
            },
            Outcome::Failed(e) => Outcome::Failed(e),
        },
        Outcome::Failed(e) => Outcome::Failed(e),
    }
}

/// The quoted operand that follows the word of a query that ends at `a`, as
/// it was written.
pub open spec fn operand_text(src: Source, a: int) -> Seq<char> {
    let s = spaces_end(src.text, a);
    src.text.subrange(s, delimited_template_at(src, s, '"')->Done_0)
}

/// The name of the cookie that the operand of a cookie query names, as it
/// was written: what stands before the bracket of an attribute, without the
/// spaces at its end. `a` is where the word `cookie` ends.
pub open spec fn cookie_name_text(src: Source, a: int) -> Seq<char> {
    let s = spaces_end(src.text, a);
    let j = quoted_oneline_string_at(src, s)->Done_0;
    let inner = src.text.subrange(s + 1, j - 1);
    let n = run_end(inner, CharClass::NotBracket, 0);
    let name = Source { origin: right_of(src.pos(s)), text: inner.subrange(0, n) };
    name.text.subrange(0, unquoted_template_at(name, 0)->Done_0)
}

/// What the query that the rule of `query` reads at `i` asks for: its kind
/// is that of the first word, in the order of the rule, that stands at `i`.
pub open spec fn query_source_at(src: Source, i: int) -> QuerySource {
    if try_literal_at(src, i, "path"@) is Done {
        QuerySource::Path
    } else if try_literal_at(src, i, "header"@) is Done {
        QuerySource::Header(operand_text(src, i + "header"@.len()))
    } else if try_literal_at(src, i, "cookie"@) is Done {
        QuerySource::Cookie(cookie_name_text(src, i + "cookie"@.len()))
    } else if try_literal_at(src, i, "body"@) is Done {
        QuerySource::Body
    } else if try_literal_at(src, i, "xpath"@) is Done {
        QuerySource::Other
    } else if try_literal_at(src, i, "jsonpath"@) is Done {
        QuerySource::Jsonpath(operand_text(src, i + "jsonpath"@.len()))
    } else if try_literal_at(src, i, "regex"@) is Done {
        QuerySource::Other
    } else if try_literal_at(src, i, "variable"@) is Done {
        QuerySource::Other
    } else if try_literal_at(src, i, "queryparam"@) is Done {
        QuerySource::QueryParam(operand_text(src, i + "queryparam"@.len()))
    } else {
        QuerySource::Other
    }
}

/// The rule of the kind of a query and its operand: the kinds are tried in
/// the order in which they stand here.
pub open spec fn query_value_at(src: Source, i: int) -> Outcome {
    if try_literal_at(src, i, "path"@) is Done {
        try_literal_at(src, i, "path"@)
    } else if try_literal_at(src, i, "header"@) is Done {
        quoted_operand_at(src, i + "header"@.len())
    } else if try_literal_at(src, i, "cookie"@) is Done {
        cookie_operand_at(src, i + "cookie"@.len())
    } else if try_literal_at(src, i, "body"@) is Done {
        try_literal_at(src, i, "body"@)
    } else if try_literal_at(src, i, "xpath"@) is Done {
        quoted_operand_at(src, i + "xpath"@.len())
    } else if try_literal_at(src, i, "jsonpath"@) is Done {
        quoted_operand_at(src, i + "jsonpath"@.len())
    } else if try_literal_at(src, i, "regex"@) is Done {
        match one_or_more_spaces_at(src, i + "regex"@.len()) {
            Outcome::Done(a) => regex_value_at(src, a),
            Outcome::Failed(e) => Outcome::Failed(e),
        }
    } else if try_literal_at(src, i, "variable"@) is Done {
        quoted_operand_at(src, i + "variable"@.len())
    } else if try_literal_at(src, i, "queryparam"@) is Done {
        quoted_operand_at(src, i + "queryparam"@.len())
    } else if try_literal_at(src, i, "bytes"@) is Done {
        try_literal_at(src, i, "bytes"@)
    } else if try_literal_at(src, i, "sha256"@) is Done {
        try_literal_at(src, i, "sha256"@)
    } else if try_literal_at(src, i, "md5"@) is Done {
        try_literal_at(src, i, "md5"@)
    } else {
        fail(src.pos(i), true, expecting("query"@))
    }
}

/// The rule of `query`.
pub open spec fn query_at(src: Source, i: int) -> Outcome {
    query_value_at(src, i)
}

/// Reads a query.
pub fn query(reader: &mut Reader) -> (r: ParseResult<Query>)
    requires
        old(reader).wf(),
    ensures
        parsed(
            old(reader),
            final(reader),
            r,
            query_at(old(reader).source(), old(reader).state.cursor as int),
        ),
        r matches Ok(q) ==> {
            &&& final(reader).state.cursor > old(reader).state.cursor
            &&& q.source_info == (SourceInfo {
                start: old(reader).state.pos,
                end: final(reader).state.pos,
            })
            &&& query_source(q.value) == query_source_at(
                old(reader).source(),
                old(reader).state.cursor as int,
            )
        },
{
    let start = reader.state.pos;
    let value = match query_value(reader) {
        Ok(v) => v,
        Err(e) => {
            return Err(e);
        },
    };
    let end = reader.state.pos;
    Ok(Query { source_info: SourceInfo::new(start, end), value })
}

/// Reads the operand of a query that takes a quoted string: spaces, then the
/// string.
fn quoted_operand(reader: &mut Reader) -> (r: ParseResult<(Whitespace, Template)>)
    requires
        old(reader).wf(),
    ensures
        parsed(
            old(reader),
            final(reader),
            r,
            quoted_operand_at(old(reader).source(), old(reader).state.cursor as int),
        ),
        r matches Err(e) ==> !e.recoverable,
        r matches Ok(o) ==> {
            &&& final(reader).state.cursor > old(reader).state.cursor
            &&& o.1.encoded_spec() == operand_text(
                old(reader).source(),
                old(reader).state.cursor as int,
            )
        },
{
    let space0 = match one_or_more_spaces(reader) {
        Ok(w) => w,
        Err(e) => {
            return Err(e);
        },
    };
    let name = match quoted_template(reader) {
        Ok(t) => t,
        Err(e) => {
            return Err(
                Error::new(e.pos, false, ParseError::Expecting { value: "\"".to_string() }),
            );
        },
    };
    Ok((space0, name))
}

/// Reads a regular expression, or a quoted string that holds one.
pub fn regex_value(reader: &mut Reader) -> (r: ParseResult<RegexValue>)
    requires
        old(reader).wf(),
    ensures
        parsed(
            old(reader),
            final(reader),
            r,
            regex_value_at(old(reader).source(), old(reader).state.cursor as int),
        ),
        r matches Err(e) ==> !e.recoverable,
        r matches Ok(v) ==> {
            &&& final(reader).state.cursor > old(reader).state.cursor
            &&& pattern_source(v) == pattern_source_at(
                old(reader).source(),
                old(reader).state.cursor as int,
            )
        },
{
    match quoted_template(reader) {
        Ok(value) => Ok(RegexValue::Template(value)),
        Err(e) => {
            if e.recoverable {
                match regex(reader) {
                    Ok(value) => Ok(RegexValue::Regex(value)),
                    Err(e) => Err(
                        Error::new(
                            e.pos,
                            false,
                            ParseError::Expecting { value: "\" or /".to_string() },
                        ),
                    ),
                }
            } else {
                Err(Error::new(e.pos, false, ParseError::Expecting { value: "\" or /".to_string() }))
            }
        },
    }
}

/// The attribute that a name stands for, whatever the case of its letters.
fn attribute_of(name: String) -> (r: Option<CookieAttributeName>)
    ensures
        r is Some <==> is_cookie_attribute(name@),
{
    let lower = lower_case(&name);
    if lower == "value".to_string() {
        Some(CookieAttributeName::Value(name))
    } else if lower == "expires".to_string() {
        Some(CookieAttributeName::Expires(name))
    } else if lower == "max-age".to_string() {
        Some(CookieAttributeName::MaxAge(name))
    } else if lower == "domain".to_string() {
        Some(CookieAttributeName::Domain(name))
    } else if lower == "path".to_string() {
        Some(CookieAttributeName::Path(name))
    } else if lower == "secure".to_string() {
        Some(CookieAttributeName::Secure(name))
    } else if lower == "httponly".to_string() {
        Some(CookieAttributeName::HttpOnly(name))
    } else if lower == "samesite".to_string() {
        Some(CookieAttributeName::SameSite(name))
    } else {
        None
    }
}

/// Reads the attribute of a cookie path, between brackets. Text that does
/// not start with a bracket is left to another rule.
fn cookiepath_attribute(reader: &mut Reader) -> (r: ParseResult<CookieAttribute>)
    requires
        old(reader).wf(),
    ensures
        parsed(
            old(reader),
            final(reader),
            r,
            cookiepath_attribute_at(old(reader).source(), old(reader).state.cursor as int),
        ),
{
    match try_literal("[", reader) {
        Ok(_) => {},
        Err(e) => {
            return Err(e);
        },
    }
    let space0 = match zero_or_more_spaces(reader) {
        Ok(w) => w,
        Err(e) => {
            return Err(e.fatal());
        },
    };
    let start = reader.state.pos;
    let text = reader.read_while(CharClass::Attribute);
    let name = match attribute_of(text) {
        Some(n) => n,
        None => {
            return Err(Error::new(start, false, ParseError::InvalidCookieAttribute));
        },
    };
    let space1 = match zero_or_more_spaces(reader) {
        Ok(w) => w,
        Err(e) => {
            return Err(e.fatal());
        },
    };
    match literal("]", reader) {
        Ok(_) => {},
        Err(e) => {
            return Err(e);
        },
    }
    Ok(CookieAttribute { space0, name, space1 })
}

/// Reads a cookie path: the name of a cookie, and optionally one of its
/// attributes between brackets.
pub fn cookiepath(reader: &mut Reader) -> (r: ParseResult<CookiePath>)
    requires
        old(reader).wf(),
    ensures
        parsed(
            old(reader),
            final(reader),
            r,
            cookiepath_at(old(reader).source(), old(reader).state.cursor as int),
        ),
        r matches Err(e) ==> !e.recoverable,
        r matches Ok(p) ==> {
            let n = run_end(
                old(reader).buffer@,
                CharClass::NotBracket,
                old(reader).state.cursor as int,
            );
            let name = part(old(reader).source(), old(reader).state.cursor as int, n);
            p.name.encoded_spec() == name.text.subrange(0, unquoted_template_at(name, 0)->Done_0)
        },
{
    let start = reader.state.pos;
    let s = reader.read_while(CharClass::NotBracket);
    let mut template_reader = Reader::new_at(chars_of(s.as_str()), start);
    let name = match unquoted_template(&mut template_reader) {
        Ok(t) => t,
        Err(e) => {
            return Err(e);
        },
    };
    let attribute = match cookiepath_attribute(reader) {
        Ok(a) => Some(a),
        Err(e) => {
            if e.recoverable {
                None
            } else {
                return Err(e);
            }
        },
    };
    Ok(CookiePath { name, attribute })
}

/// Reads the operand of a cookie query: spaces, then a cookie path between
/// double quotes.
fn cookie_operand(reader: &mut Reader) -> (r: ParseResult<(Whitespace, CookiePath)>)
    requires
        old(reader).wf(),
    ensures
        parsed(
            old(reader),
            final(reader),
            r,
            cookie_operand_at(old(reader).source(), old(reader).state.cursor as int),
        ),
        r matches Err(e) ==> !e.recoverable,
        r matches Ok(o) ==> {
            &&& final(reader).state.cursor > old(reader).state.cursor
            &&& o.1.name.encoded_spec() == cookie_name_text(
                old(reader).source(),
                old(reader).state.cursor as int,
            )
        },
{
    let space0 = match one_or_more_spaces(reader) {
        Ok(w) => w,
        Err(e) => {
            return Err(e);
        },
    };
    let start = reader.state.pos;
    let s = match quoted_oneline_string(reader) {
        Ok(s) => s,
        Err(e) => {
            return Err(e);
        },
    };
    let inner = Pos { line: start.line, column: successor(start.column) };
    let mut cookiepath_reader = Reader::new_at(chars_of(s.as_str()), inner);
    let expr = match cookiepath(&mut cookiepath_reader) {
        Ok(p) => p,
        Err(e) => {
            return Err(e);
        },
    };
    match eof(&mut cookiepath_reader) {
        Ok(_) => {},
        Err(e) => {
            return Err(Error::new(e.pos, false, ParseError::InvalidCookieAttribute));
        },
    }
    Ok((space0, expr))
}

/// Reads the kind of a query and its operand.
fn query_value(reader: &mut Reader) -> (r: ParseResult<QueryValue>)
    requires
        old(reader).wf(),
    ensures
        parsed(
            old(reader),
            final(reader),
            r,
            query_value_at(old(reader).source(), old(reader).state.cursor as int),
        ),
        r matches Ok(v) ==> {
            &&& final(reader).state.cursor > old(reader).state.cursor
            &&& query_source(v) == query_source_at(
                old(reader).source(),
                old(reader).state.cursor as int,
            )
        },
{
    proof {
        reveal_strlit("path");
        reveal_strlit("header");
        reveal_strlit("cookie");
        reveal_strlit("body");
        reveal_strlit("xpath");
        reveal_strlit("jsonpath");
        reveal_strlit("regex");
        reveal_strlit("variable");
        reveal_strlit("queryparam");
        reveal_strlit("bytes");
        reveal_strlit("sha256");
        reveal_strlit("md5");
    }
    let start = reader.state;
    if try_literal("path", reader).is_ok() {
        return Ok(QueryValue::Path);
    }
    if try_literal("header", reader).is_ok() {
        return match quoted_operand(reader) {
            Ok((space0, name)) => Ok(QueryValue::Header { space0, name }),
            Err(e) => Err(e),
        };
    }
    if try_literal("cookie", reader).is_ok() {
        return match cookie_operand(reader) {
            Ok((space0, expr)) => Ok(QueryValue::Cookie { space0, expr }),
            Err(e) => Err(e),
        };
    }
    if try_literal("body", reader).is_ok() {
        return Ok(QueryValue::Body);
    }
    if try_literal("xpath", reader).is_ok() {
        return match quoted_operand(reader) {
            Ok((space0, expr)) => Ok(QueryValue::Xpath { space0, expr }),
            Err(e) => Err(e),
        };
    }
    if try_literal("jsonpath", reader).is_ok() {
        return match quoted_operand(reader) {
            Ok((space0, expr)) => Ok(QueryValue::Jsonpath { space0, expr }),
            Err(e) => Err(e),
        };
    }
    if try_literal("regex", reader).is_ok() {
        let space0 = match one_or_more_spaces(reader) {
            Ok(w) => w,
            Err(e) => {
                return Err(e);
            },
        };
        return match regex_value(reader) {
            Ok(value) => Ok(QueryValue::Regex { space0, value }),
            Err(e) => Err(e),
        };
    }
    if try_literal("variable", reader).is_ok() {
        return match quoted_operand(reader) {
            Ok((space0, name)) => Ok(QueryValue::Variable { space0, name }),
            Err(e) => Err(e),
        };
    }
    if try_literal("queryparam", reader).is_ok() {
        return match quoted_operand(reader) {
            Ok((space0, name)) => Ok(QueryValue::QueryParam { space0, name }),
            Err(e) => Err(e),
        };
    }
    if try_literal("bytes", reader).is_ok() {
        return Ok(QueryValue::Bytes);
    }
    if try_literal("sha256", reader).is_ok() {
        return Ok(QueryValue::Sha256);
    }
    if try_literal("md5", reader).is_ok() {
        return Ok(QueryValue::Md5);
    }
    Err(Error::new(start.pos, true, ParseError::Expecting { value: "query".to_string() }))
}

} // verus!
