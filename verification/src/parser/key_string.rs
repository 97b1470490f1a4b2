//! Keys: the names of headers and captures.

use vstd::prelude::*;

use crate::ast::{SourceInfo, Template, TemplateElement};
use crate::parser::error::{Error, ParseError, ParseErrorView};
use crate::parser::expr;
use crate::parser::primitives::{expecting, fail, parsed, Outcome, ParseResult};
use crate::parser::reader::{alphanumeric, is_alphanumeric, Reader, Source};
use crate::parser::string::{char_of, hex_digit, hex_value, is_scalar};
use crate::text::string_of;

verus! {

/// Whether a key may hold the character as it is.
pub open spec fn is_key_char(c: char) -> bool {
    is_alphanumeric(c) || c == '_' || c == '-' || c == '.' || c == '[' || c == ']' || c == '@'
        || c == '$'
}

/// Whether a key may hold the character as it is.
fn key_char(c: char) -> (r: bool)
    ensures
        r == is_key_char(c),
{
    alphanumeric(c) || c == '_' || c == '-' || c == '.' || c == '[' || c == ']' || c == '@' || c
        == '$'
}

/// The character that an escape letter stands for in a key.
pub open spec fn key_escaped(c: char) -> Option<char> {
    if c == '#' || c == ':' || c == '\\' || c == '/' {
        Some(c)
    } else if c == 'b' {
        Some('\x08')
    } else if c == 'f' {
        Some('\x0c')
    } else if c == 'n' {
        Some('\n')
    } else if c == 'r' {
        Some('\r')
    } else if c == 't' {
        Some('\t')
    } else {
        None
    }
}

/// The character that an escape letter stands for in a key.
fn key_unescape(c: char) -> (r: Option<char>)
    ensures
        r == key_escaped(c),
{
    if c == '#' || c == ':' || c == '\\' || c == '/' {
        Some(c)
    } else if c == 'b' {
        Some('\x08')
    } else if c == 'f' {
        Some('\x0c')
    } else if c == 'n' {
        Some('\n')
    } else if c == 'r' {
        Some('\r')
    } else if c == 't' {
        Some('\t')
    } else {
        None
    }
}

/// Whether a hexadecimal digit stands at index `i`.
pub open spec fn is_hex_at(text: Seq<char>, i: int) -> bool {
    0 <= i < text.len() && hex_value(text[i]) is Some
}

/// The value of the hexadecimal digit at index `i`.
pub open spec fn hex_at(text: Seq<char>, i: int) -> int {
    match hex_value(text[i]) {
        Some(d) => d as int,
        None => 0,
    }
}

/// The number that the `n` hexadecimal digits from index `i` on denote.
pub open spec fn hex_digits(text: Seq<char>, i: int, n: nat) -> int
    decreases n,
{
    if n == 0 {
        0
    } else {
        hex_digits(text, i, (n - 1) as nat) * 16 + hex_at(text, i + n - 1)
    }
}

/// The rule of the four hexadecimal digits of the number of a character.
pub open spec fn unicode_at(src: Source, i: int) -> Outcome {
    if !is_hex_at(src.text, i) {
        fail(src.pos(i), false, ParseErrorView::HexDigit)
    } else if !is_hex_at(src.text, i + 1) {
        fail(src.pos(i + 1), false, ParseErrorView::HexDigit)
    } else if !is_hex_at(src.text, i + 2) {
        fail(src.pos(i + 2), false, ParseErrorView::HexDigit)
    } else if !is_hex_at(src.text, i + 3) {
        fail(src.pos(i + 3), false, ParseErrorView::HexDigit)
    } else if !is_scalar(hex_digits(src.text, i, 4) as u32) {
        fail(src.pos(i + 4), false, ParseErrorView::Unicode)
    } else {
        Outcome::Done(i + 4)
    }
}

/// The rule of an escape of a key: a backslash, then a letter that stands
/// for a character, or `u` and the four hexadecimal digits of the number of
/// a character.
pub open spec fn escaped_char_at(src: Source, i: int) -> Outcome {
    if !(0 <= i < src.len() && src.text[i] == '\\') {
        fail(src.pos(i), true, expecting("\\"@))
    } else if i + 1 >= src.len() {
        fail(src.pos(i + 1), false, ParseErrorView::EscapeChar)
    } else if src.text[i + 1] == 'u' {
        unicode_at(src, i + 2)
    } else if key_escaped(src.text[i + 1]) is Some {
        Outcome::Done(i + 2)
    } else {
        fail(src.pos(i + 1), false, ParseErrorView::EscapeChar)
    }
}

/// The rule of the literal text of a key: key characters and escapes, as
/// many as there are.
pub open spec fn content_at(src: Source, i: int) -> Outcome
    decreases src.len() - i,
{
    match escaped_char_at(src, i) {
        Outcome::Done(j) => if i < j <= src.len() {
            content_at(src, j)
        } else {
            Outcome::Done(i)
        },
        Outcome::Failed(e) => if !e.recoverable {
            Outcome::Failed(e)
        } else if 0 <= i < src.len() && is_key_char(src.text[i]) {
            content_at(src, i + 1)
        } else {
            Outcome::Done(i)
        },
    }
}

/// The rule of the parts of a key: variable references and literal text, as
/// many as there are.
pub open spec fn parts_at(src: Source, i: int) -> Outcome
    decreases src.len() - i,
{
    match expr::parse_at(src, i) {
        Outcome::Done(j) => if i < j <= src.len() {
            parts_at(src, j)
        } else {
            Outcome::Done(i)
        },
        Outcome::Failed(e) => if !e.recoverable {
            Outcome::Failed(e)
        } else {
            match content_at(src, i) {
                Outcome::Done(j) => if i < j <= src.len() {
                    parts_at(src, j)
                } else {
                    Outcome::Done(i)
                },
                Outcome::Failed(e) => Outcome::Failed(e),
            }
        },
    }
}

/// Whether the key that starts at `i` starts with a bracket written as it
/// is.
pub open spec fn starts_with_bracket(src: Source, i: int) -> bool {
    0 <= i < src.len() && src.text[i] == '['
}

/// The rule of `parse`: one or more parts, the first of which does not
/// start with a bracket.
pub open spec fn parse_at(src: Source, i: int) -> Outcome {
    match parts_at(src, i) {
        Outcome::Done(j) => if j == i || starts_with_bracket(src, i) {
            fail(src.pos(i), false, expecting("key-string"@))
        } else {
            Outcome::Done(j)
        },
        Outcome::Failed(e) => Outcome::Failed(e),
    }
}

/// Reads the four hexadecimal digits of the number of a character.
pub(crate) fn unicode(reader: &mut Reader) -> (r: ParseResult<char>)
    requires
        old(reader).wf(),
    ensures
        parsed(
            old(reader),
            final(reader),
            r,
            unicode_at(old(reader).source(), old(reader).state.cursor as int),
        ),
{
    let ghost start = reader.state.cursor as int;
    let mut v: u32 = 0;
    let mut i: usize = 0;
    while i < 4
        invariant
            i <= 4,
            reader.follows(old(reader)),
            old(reader).wf(),
            start == old(reader).state.cursor,
            reader.state.cursor == start + i,
            i > 0 ==> is_hex_at(reader.buffer@, start),
            i > 1 ==> is_hex_at(reader.buffer@, start + 1),
            i > 2 ==> is_hex_at(reader.buffer@, start + 2),
            i > 3 ==> is_hex_at(reader.buffer@, start + 3),
            v as int == hex_digits(reader.buffer@, start, i as nat),
            v < 0x10000,
            i < 4 ==> v < 0x1000,
        decreases 4 - i,
    {
        proof {
            lemma_hex_digits_bound(reader.buffer@, start, i as nat);
        }
        match hex_digit(reader) {
            Ok(d) => {
                v = v * 16 + d;
            },
            Err(e) => {
                return Err(e.fatal());
            },
        }
        i += 1;
        proof {
            lemma_hex_digits_bound(reader.buffer@, start, i as nat);
        }
    }
    match char_of(v) {
        Some(c) => Ok(c),
        None => Err(Error::new(reader.state.pos, false, ParseError::Unicode)),
    }
}

/// A number of `n` hexadecimal digits is below 16 to the `n`, for `n` up to
/// four.
pub proof fn lemma_hex_digits_bound(text: Seq<char>, i: int, n: nat)
    requires
        n <= 4,
    ensures
        0 <= hex_digits(text, i, n),
        n == 0 ==> hex_digits(text, i, n) == 0,
        n == 1 ==> hex_digits(text, i, n) < 0x10,
        n == 2 ==> hex_digits(text, i, n) < 0x100,
        n == 3 ==> hex_digits(text, i, n) < 0x1000,
        n == 4 ==> hex_digits(text, i, n) < 0x10000,
    decreases n,
{
    if n > 0 {
        lemma_hex_digits_bound(text, i, (n - 1) as nat);
    }
}

/// Reads an escape of a key. Text that does not start with a backslash is
/// left to another rule.
fn key_string_escaped_char(reader: &mut Reader) -> (r: ParseResult<char>)
    requires
        old(reader).wf(),
    ensures
        parsed(
            old(reader),
            final(reader),
            r,
            escaped_char_at(old(reader).source(), old(reader).state.cursor as int),
        ),
        r is Ok ==> final(reader).state.cursor > old(reader).state.cursor,
{
    let start = reader.state;
    match reader.peek() {
        Some(c) => {
            if c != '\\' {
                return Err(
                    Error::new(start.pos, true, ParseError::Expecting { value: "\\".to_string() }),
                );
            }
        },
        None => {
            return Err(
                Error::new(start.pos, true, ParseError::Expecting { value: "\\".to_string() }),
            );
        },
    }
    reader.read();
    let after = reader.state;
    match reader.read() {
        Some(c) => {
            if c == 'u' {
                unicode(reader)
            } else {
                match key_unescape(c) {
                    Some(v) => Ok(v),
                    None => Err(Error::new(after.pos, false, ParseError::EscapeChar)),
                }
            }
        },
        None => Err(Error::new(after.pos, false, ParseError::EscapeChar)),
    }
}

/// Reads the literal text of a key: key characters and escapes.
fn key_string_content(reader: &mut Reader) -> (r: ParseResult<String>)
    requires
        old(reader).wf(),
    ensures
        parsed(
            old(reader),
            final(reader),
            r,
            content_at(old(reader).source(), old(reader).state.cursor as int),
        ),
        r matches Err(e) ==> !e.recoverable,
{
    let mut s: Vec<char> = Vec::new();
    loop
        invariant
            reader.follows(old(reader)),
            old(reader).wf(),
            content_at(old(reader).source(), old(reader).state.cursor as int) == content_at(
                reader.source(),
                reader.state.cursor as int,
            ),
        ensures
            content_at(reader.source(), reader.state.cursor as int) == Outcome::Done(
                reader.state.cursor as int,
            ),
        decreases reader.buffer@.len() - reader.state.cursor,
    {
        match key_string_escaped_char(reader) {
            Ok(c) => {
                s.push(c);
            },
            Err(e) => {
                if e.recoverable {
                    match reader.peek() {
                        Some(c) => {
                            if key_char(c) {
                                reader.read();
                                s.push(c);
                            } else {
                                break ;
                            }
                        },
                        None => {
                            break ;
                        },
                    }
                } else {
                    return Err(e);
                }
            },
        }
    }
    Ok(string_of(&s))
}

/// Adds an element to the elements of a key.
fn push_element(elements: &mut Vec<TemplateElement>, element: TemplateElement)
    ensures
        final(elements)@ == old(elements)@.push(element),
        crate::ast::elements_encoded(final(elements)@) == crate::ast::elements_encoded(
            old(elements)@,
        ) + element.encoded_spec(),
{
    elements.push(element);
    assert(elements@.drop_last() =~= old(elements)@);
}

/// Reads a key: literal text and variable references, one at least. A key
/// does not start with a bracket.
pub fn parse(reader: &mut Reader) -> (r: ParseResult<Template>)
    requires
        old(reader).wf(),
    ensures
        parsed(
            old(reader),
            final(reader),
            r,
            parse_at(old(reader).source(), old(reader).state.cursor as int),
        ),
        r matches Err(e) ==> !e.recoverable,
        r matches Ok(t) ==> {
            &&& t.delimiter is None
            &&& t.elements@.len() > 0
            &&& final(reader).state.cursor > old(reader).state.cursor
            &&& t.source_info == (SourceInfo {
                start: old(reader).state.pos,
                end: final(reader).state.pos,
            })
            &&& t.encoded_spec() == old(reader).text(
                old(reader).state.cursor as int,
                final(reader).state.cursor as int,
            )
        },
{
    let start = reader.state;
    let bracket = match reader.peek() {
        Some(c) => c == '[',
        None => false,
    };
    let mut elements: Vec<TemplateElement> = Vec::new();
    assert(crate::ast::elements_encoded(elements@) =~= reader.text(
        start.cursor as int,
        start.cursor as int,
    ));
    loop
        invariant
            reader.follows(old(reader)),
            old(reader).wf(),
            start == old(reader).state,
            elements@.len() > 0 <==> reader.state.cursor > start.cursor,
            parts_at(reader.source(), start.cursor as int) == parts_at(
                reader.source(),
                reader.state.cursor as int,
            ),
            crate::ast::elements_encoded(elements@) == reader.text(
                start.cursor as int,
                reader.state.cursor as int,
            ),
        ensures
            parts_at(reader.source(), reader.state.cursor as int) == Outcome::Done(
                reader.state.cursor as int,
            ),
        decreases reader.buffer@.len() - reader.state.cursor,
    {
        let ghost at = reader.state.cursor as int;
        match expr::parse(reader) {
            Ok(expr) => {
                push_element(&mut elements, TemplateElement::Expression(expr));
                assert(reader.text(start.cursor as int, at) + reader.text(
                    at,
                    reader.state.cursor as int,
                ) =~= reader.text(start.cursor as int, reader.state.cursor as int));
            },
            Err(e) => {
                if e.recoverable {
                    let begin = reader.state.cursor;
                    let value = match key_string_content(reader) {
                        Ok(v) => v,
                        Err(e) => {
                            return Err(e);
                        },
                    };
                    if reader.state.cursor == begin {
                        break ;
                    }
                    let encoded = reader.peek_back(begin);
                    push_element(&mut elements, TemplateElement::String { value, encoded });
                    assert(reader.text(start.cursor as int, at) + reader.text(
                        at,
                        reader.state.cursor as int,
                    ) =~= reader.text(start.cursor as int, reader.state.cursor as int));
                } else {
                    return Err(e);
                }
            },
        }
    }
    if elements.len() == 0 || bracket {
        return Err(
            Error::new(start.pos, false, ParseError::Expecting { value: "key-string".to_string() }),
        );
    }
    let t = Template {
        delimiter: None,
        elements,
        source_info: SourceInfo::new(start.pos, reader.state.pos),
    };
    assert(t.encoded_spec() =~= crate::ast::elements_encoded(t.elements@));
    Ok(t)
}

} // verus!
