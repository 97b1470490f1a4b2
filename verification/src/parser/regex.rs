//! Regular expressions between slashes.

use vstd::prelude::*;

use crate::ast::Regex;
use crate::parser::error::{Error, ParseError, ParseErrorView};
use crate::parser::primitives::{expecting, fail, parsed, Outcome, ParseResult};
use crate::parser::reader::{Reader, Source};
use crate::pattern::{pattern_error, syntax_error};
use crate::text::string_of;

verus! {

/// The source of the regular expression that runs from index `k` on, added
/// to `acc`, and the index after the slash that closes it; `None` when no
/// slash closes it. A slash with a backslash in front is part of the source,
/// without the backslash.
pub open spec fn source_at(text: Seq<char>, k: int, acc: Seq<char>) -> Option<(Seq<char>, int)>
    decreases text.len() - k,
{
    if k < 0 || k >= text.len() {
        None
    } else if text[k] == '/' {
        Some((acc, k + 1))
    } else if text[k] == '\\' && k + 1 < text.len() && text[k + 1] == '/' {
        source_at(text, k + 2, acc.push('/'))
    } else {
        source_at(text, k + 1, acc.push(text[k]))
    }
}

/// The rule of `regex`: a slash, the source of a regular expression, a
/// slash.
pub open spec fn regex_at(src: Source, i: int) -> Outcome {
    if !(0 <= i < src.len() && src.text[i] == '/') {
        fail(src.pos(i), true, expecting("/"@))
    } else {
        match source_at(src.text, i + 1, Seq::empty()) {
            None => fail(src.pos(src.len()), false, ParseErrorView::Eof),
            Some((source, j)) => match pattern_error(source) {
                Some(message) => fail(src.pos(i + 1), false, ParseErrorView::RegexExpr { message }),
                None => Outcome::Done(j),
            },
        }
    }
}

/// The regular expression that the rule reads at `i`.
pub open spec fn regex_source(src: Source, i: int) -> Seq<char> {
    match source_at(src.text, i + 1, Seq::empty()) {
        Some((source, _)) => source,
        None => Seq::empty(),
    }
}

/// Reads a regular expression between slashes. A slash inside it is written
/// with a backslash in front. Text that does not start with a slash is left
/// to another rule.
pub fn regex(reader: &mut Reader) -> (r: ParseResult<Regex>)
    requires
        old(reader).wf(),
    ensures
        parsed(
            old(reader),
            final(reader),
            r,
            regex_at(old(reader).source(), old(reader).state.cursor as int),
        ),
        r matches Ok(re) ==> {
            &&& re.inner@ == regex_source(old(reader).source(), old(reader).state.cursor as int)
            &&& pattern_error(re.inner@) is None
            &&& final(reader).state.cursor > old(reader).state.cursor
        },
{
    let begin = reader.state;
    match reader.peek() {
        Some(c) => {
            if c != '/' {
                return Err(
                    Error::new(begin.pos, true, ParseError::Expecting { value: "/".to_string() }),
                );
            }
        },
        None => {
            return Err(
                Error::new(begin.pos, true, ParseError::Expecting { value: "/".to_string() }),
            );
        },
    }
    reader.read();
    let start = reader.state;
    let mut s: Vec<char> = Vec::new();
    assert(s@ =~= Seq::<char>::empty());
    loop
        invariant_except_break
            source_at(reader.buffer@, start.cursor as int, Seq::empty()) == source_at(
                reader.buffer@,
                reader.state.cursor as int,
                s@,
            ),
        invariant
            reader.follows(old(reader)),
            old(reader).wf(),
            begin == old(reader).state,
            start.cursor == begin.cursor + 1,
            start.pos == reader.pos_of(start.cursor as int),
            reader.state.cursor >= start.cursor,
            old(reader).buffer@[old(reader).state.cursor as int] == '/',
        ensures
            reader.follows(old(reader)),
            reader.state.cursor > start.cursor,
            source_at(reader.buffer@, start.cursor as int, Seq::empty()) == Some(
                (s@, reader.state.cursor as int),
            ),
        decreases reader.buffer@.len() - reader.state.cursor,
    {
        match reader.read() {
            None => {
                return Err(Error::new(reader.state.pos, false, ParseError::Eof));
            },
            Some(c) => {
                if c == '/' {
                    break ;
                } else if c == '\\' {
                    match reader.peek() {
                        Some(next) => {
                            if next == '/' {
                                reader.read();
                                s.push('/');
                            } else {
                                s.push('\\');
                            }
                        },
                        None => {
                            s.push('\\');
                        },
                    }
                } else {
                    s.push(c);
                }
            },
        }
    }
    let inner = string_of(&s);
    match syntax_error(inner.as_str()) {
        None => Ok(Regex { inner }),
        Some(message) => Err(Error::new(start.pos, false, ParseError::RegexExpr { message })),
    }
}

} // verus!
