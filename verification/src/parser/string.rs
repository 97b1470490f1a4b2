//! Strings of the grammar: quoted, between backticks, or up to the end of
//! the line, with escapes and variable references.

use vstd::prelude::*;

use crate::ast::{Pos, SourceInfo, Template, TemplateElement};
use crate::ast::{close_braces, elements_encoded, first_reference, open_braces, Expr};
use crate::parser::error::{Error, ParseError, ParseErrorView};
use crate::parser::expr;
use crate::parser::expr::{name_at, parse2_at};
use crate::parser::primitives::{
    expecting, fail, literal, literal_at, parsed, spaces_end, Outcome, ParseResult,
};
use crate::parser::reader::{run_end, CharClass, Reader, Source};
use crate::text::{chars_of, extend_chars, string_of};

verus! {

/// A character of a string: what it denotes, how it was written, and where.
#[derive(Clone, Debug, PartialEq, Eq)]
pub struct EncodedChar {
    pub value: char,
    pub encoded: String,
    pub pos: Pos,
}

/// Whether `v` is the number of a character: not above `10FFFF` and no
/// surrogate.
pub open spec fn is_scalar(v: u32) -> bool {
    v < 0xD800 || (0xE000 <= v && v <= 0x10FFFF)
}

/// The character of a number.
///
/// Trusted: `char::from_u32` gives the character of every number that is a
/// Unicode scalar value, and `None` for any other number.
#[verifier::external_body]
pub(crate) fn char_of(v: u32) -> (r: Option<char>)
    ensures
        r is Some <==> is_scalar(v),
        r matches Some(c) ==> c as u32 == v,
{
    char::from_u32(v)
}

/// The value of a hexadecimal digit.
pub open spec fn hex_value(c: char) -> Option<u32> {
    if '0' <= c && c <= '9' {
        Some((c as u32 - '0' as u32) as u32)
    } else if 'a' <= c && c <= 'f' {
        Some((c as u32 - 'a' as u32 + 10) as u32)
    } else if 'A' <= c && c <= 'F' {
        Some((c as u32 - 'A' as u32 + 10) as u32)
    } else {
        None
    }
}

/// The value of a hexadecimal digit.
pub fn hex_digit_value(c: char) -> (r: Option<u32>)
    ensures
        r == hex_value(c),
        r matches Some(v) ==> v < 16,
{
    if '0' <= c && c <= '9' {
        Some(c as u32 - '0' as u32)
    } else if 'a' <= c && c <= 'f' {
        Some(c as u32 - 'a' as u32 + 10)
    } else if 'A' <= c && c <= 'F' {
        Some(c as u32 - 'A' as u32 + 10)
    } else {
        None
    }
}

/// The rule of `hex_digit`: one hexadecimal digit.
pub open spec fn hex_digit_at(src: Source, i: int) -> Outcome {
    if 0 <= i < src.len() && hex_value(src.text[i]) is Some {
        Outcome::Done(i + 1)
    } else {
        fail(src.pos(i), true, ParseErrorView::HexDigit)
    }
}

/// The first index at or after `i` that holds no hexadecimal digit.
pub open spec fn hex_run_end(text: Seq<char>, i: int) -> int
    decreases text.len() - i,
{
    if 0 <= i < text.len() && hex_value(text[i]) is Some {
        hex_run_end(text, i + 1)
    } else {
        i
    }
}

/// A number beyond every character.
pub const BEYOND: u32 = 0x110000;

/// The number that grows from `v` by one more hexadecimal digit, or
/// `BEYOND` when it would pass it.
pub open spec fn grown(v: int, d: int) -> int {
    if v * 16 + d < BEYOND {
        v * 16 + d
    } else {
        BEYOND as int
    }
}

/// The number written in hexadecimal between two indices, or `BEYOND` when
/// it is greater.
pub open spec fn hex_number(text: Seq<char>, from: int, to: int) -> int
    decreases to - from,
{
    if from >= to || to > text.len() || from < 0 {
        0
    } else {
        grown(
            hex_number(text, from, to - 1),
            match hex_value(text[to - 1]) {
                Some(d) => d as int,
                None => 0,
            },
        )
    }
}

/// The rule of the number of a character between braces: an opening brace,
/// one or more hexadecimal digits that are the number of a character, a
/// closing brace.
pub open spec fn unicode_at(src: Source, i: int) -> Outcome {
    match literal_at(src, i, "{"@) {
        Outcome::Done(a) => {
            let b = hex_run_end(src.text, a);
            if b == a {
                fail(src.pos(a), false, ParseErrorView::HexDigit)
            } else if !is_scalar(hex_number(src.text, a, b) as u32) {
                fail(src.pos(b), false, ParseErrorView::Unicode)
            } else {
                literal_at(src, b, "}"@)
            }
        },
        Outcome::Failed(e) => Outcome::Failed(e),
    }
}

/// The rule of `escape_char`: a backslash, then a letter that stands for a
/// character, or `u` and the number of a character between braces.
pub open spec fn escape_char_at(src: Source, i: int) -> Outcome {
    if !(0 <= i < src.len() && src.text[i] == '\\') {
        fail(src.pos(i), true, expecting("\\"@))
    } else if i + 1 >= src.len() {
        fail(src.pos(i + 1), false, ParseErrorView::EscapeChar)
    } else if src.text[i + 1] == 'u' {
        unicode_at(src, i + 2)
    } else if escaped(src.text[i + 1]) is Some {
        Outcome::Done(i + 2)
    } else {
        fail(src.pos(i + 1), false, ParseErrorView::EscapeChar)
    }
}

/// Whether a character can stand in a string as it is.
pub open spec fn is_plain(c: char, except: char) -> bool {
    c != except && c != '\\' && c != '\x08' && c != '\n' && c != '\x0c' && c != '\r' && c != '\t'
}

/// The rule of `any_char`: an escape, or a character that can stand as it
/// is.
pub open spec fn any_char_at(src: Source, i: int, except: char) -> Outcome {
    match escape_char_at(src, i) {
        Outcome::Done(j) => Outcome::Done(j),
        Outcome::Failed(e) => if !e.recoverable {
            Outcome::Failed(e)
        } else if 0 <= i < src.len() && is_plain(src.text[i], except) {
            Outcome::Done(i + 1)
        } else {
            fail(src.pos(i), true, expecting("char"@))
        },
    }
}

/// The rule of the characters of a string: as many as there are, up to the
/// first that only another rule can read.
pub open spec fn chars_at(src: Source, i: int, except: char) -> Outcome
    decreases src.len() - i,
{
    match any_char_at(src, i, except) {
        Outcome::Done(j) => if i < j <= src.len() {
            chars_at(src, j, except)
        } else {
            Outcome::Done(i)
        },
        Outcome::Failed(e) => if e.recoverable {
            Outcome::Done(i)
        } else {
            Outcome::Failed(e)
        },
    }
}

/// The rule of `delimited_template`: the delimiter, the characters of the
/// string, the delimiter.
pub open spec fn delimited_template_at(src: Source, i: int, delimiter: char) -> Outcome {
    if !(0 <= i < src.len() && src.text[i] == delimiter) {
        fail(src.pos(i), true, expecting(seq![delimiter]))
    } else {
        match chars_at(src, i + 1, delimiter) {
            Outcome::Done(j) => if 0 <= j < src.len() && src.text[j] == delimiter {
                Outcome::Done(j + 1)
            } else {
                fail(src.pos(j), false, expecting(seq![delimiter]))
            },
            Outcome::Failed(e) => Outcome::Failed(e),
        }
    }
}

/// The rule of the content of an unquoted string: its characters up to a
/// comment or the end of the line, without the spaces at its end. `end` is
/// where the last character read so far that is no space ends.
pub open spec fn content_at(src: Source, i: int, end: int) -> Outcome
    decreases src.len() - i,
{
    match any_char_at(src, i, '#') {
        Outcome::Done(j) => if i < j <= src.len() {
            content_at(
                src,
                j,
                if j == i + 1 && src.text[i] == ' ' {
                    end
                } else {
                    j
                },
            )
        } else {
            Outcome::Done(end)
        },
        Outcome::Failed(e) => if e.recoverable {
            Outcome::Done(end)
        } else {
            Outcome::Failed(e)
        },
    }
}

/// The rule of `unquoted_template`.
pub open spec fn unquoted_template_at(src: Source, i: int) -> Outcome {
    content_at(src, i, i)
}

/// The rule of `quoted_oneline_string`: a double quote, anything but a
/// double quote and a line feed, a double quote.
pub open spec fn quoted_oneline_string_at(src: Source, i: int) -> Outcome {
    match literal_at(src, i, "\""@) {
        Outcome::Done(a) => literal_at(src, run_end(src.text, CharClass::NotQuote, a), "\""@),
        Outcome::Failed(e) => Outcome::Failed(e),
    }
}

/// The characters as they were written, one after the other.
pub open spec fn flat(chars: Seq<EncodedChar>) -> Seq<char>
    decreases chars.len(),
{
    if chars.len() == 0 {
        Seq::empty()
    } else {
        flat(chars.drop_last()) + chars.last().encoded@
    }
}

/// What two runs of characters were written as, one after the other, is
/// what they were written as together.
pub proof fn lemma_flat_add(a: Seq<EncodedChar>, b: Seq<EncodedChar>)
    ensures
        flat(a + b) == flat(a) + flat(b),
    decreases b.len(),
{
    if b.len() == 0 {
        assert(a + b =~= a);
        assert(flat(a) + flat(b) =~= flat(a));
    } else {
        assert((a + b).drop_last() =~= a + b.drop_last());
        assert((a + b).last() == b.last());
        lemma_flat_add(a, b.drop_last());
        assert(flat(a + b) =~= flat(a) + flat(b));
    }
}

/// Reads one hexadecimal digit.
pub fn hex_digit(reader: &mut Reader) -> (r: ParseResult<u32>)
    requires
        old(reader).wf(),
    ensures
        parsed(
            old(reader),
            final(reader),
            r,
            hex_digit_at(old(reader).source(), old(reader).state.cursor as int),
        ),
        r matches Ok(v) ==> hex_value(old(reader).buffer@[old(reader).state.cursor as int])
            == Some(v) && v < 16,
{
    let start = reader.state;
    match reader.peek() {
        Some(c) => match hex_digit_value(c) {
            Some(v) => {
                reader.read();
                Ok(v)
            },
            None => Err(Error::new(start.pos, true, ParseError::HexDigit)),
        },
        None => Err(Error::new(start.pos, true, ParseError::HexDigit)),
    }
}

/// Reads the number of a character between braces, written in hexadecimal.
fn unicode(reader: &mut Reader) -> (r: ParseResult<char>)
    requires
        old(reader).wf(),
    ensures
        parsed(
            old(reader),
            final(reader),
            r,
            unicode_at(old(reader).source(), old(reader).state.cursor as int),
        ),
{
    proof {
        reveal_strlit("{");
    }
    match literal("{", reader) {
        Ok(_) => {},
        Err(e) => {
            return Err(e);
        },
    }
    let ghost a = reader.state.cursor as int;
    let mut v: u32 = match hex_digit(reader) {
        Ok(d) => d,
        Err(e) => {
            return Err(e.fatal());
        },
    };
    proof {
        assert(hex_number(reader.buffer@, a, a) == 0);
    }
    loop
        invariant
            reader.follows(old(reader)),
            old(reader).wf(),
            a == old(reader).state.cursor + 1,
            literal_at(old(reader).source(), old(reader).state.cursor as int, "{"@)
                == Outcome::Done(a),
            reader.state.cursor > a,
            v <= BEYOND,
            v as int == hex_number(reader.buffer@, a, reader.state.cursor as int),
            hex_run_end(reader.buffer@, a) == hex_run_end(
                reader.buffer@,
                reader.state.cursor as int,
            ),
        ensures
            hex_run_end(reader.buffer@, reader.state.cursor as int) == reader.state.cursor,
        decreases reader.buffer@.len() - reader.state.cursor,
    {
        match hex_digit(reader) {
            Ok(d) => {
                v = if v < 0x11000 {
                    v * 16 + d
                } else {
                    BEYOND
                };
                if v > BEYOND {
                    v = BEYOND;
                }
            },
            Err(_) => {
                break ;
            },
        }
    }
    let c = match char_of(v) {
        None => {
            return Err(Error::new(reader.state.pos, false, ParseError::Unicode));
        },
        Some(c) => c,
    };
    match literal("}", reader) {
        Ok(_) => {},
        Err(e) => {
            return Err(e);
        },
    }
    Ok(c)
}

/// The character that an escape letter stands for, for the letters that
/// stand for one character.
pub open spec fn escaped(c: char) -> Option<char> {
    if c == '#' || c == '"' || c == '`' || c == '\\' || c == '/' {
        Some(c)
    } else if c == 'b' {
        Some('\x08')
    } else if c == 'n' {
        Some('\n')
    } else if c == 'f' {
        Some('\x0c')
    } else if c == 'r' {
        Some('\r')
    } else if c == 't' {
        Some('\t')
    } else {
        None
    }
}

/// The character that an escape letter stands for.
fn unescape(c: char) -> (r: Option<char>)
    ensures
        r == escaped(c),
{
    if c == '#' || c == '"' || c == '`' || c == '\\' || c == '/' {
        Some(c)
    } else if c == 'b' {
        Some('\x08')
    } else if c == 'n' {
        Some('\n')
    } else if c == 'f' {
        Some('\x0c')
    } else if c == 'r' {
        Some('\r')
    } else if c == 't' {
        Some('\t')
    } else {
        None
    }
}

/// Reads an escape: a backslash and what it escapes. Text that does not
/// start with a backslash is left to another rule.
pub fn escape_char(reader: &mut Reader) -> (r: ParseResult<char>)
    requires
        old(reader).wf(),
    ensures
        parsed(
            old(reader),
            final(reader),
            r,
            escape_char_at(old(reader).source(), old(reader).state.cursor as int),
        ),
        r is Ok ==> final(reader).state.cursor > old(reader).state.cursor,
{
    let start = reader.state;
    match reader.peek() {
        Some(c) => {
            if c != '\\' {
                return Err(
                    Error::new(start.pos, true, ParseError::Expecting { value: "\\".to_string() }),
                );
            }
        },
        None => {
            return Err(
                Error::new(start.pos, true, ParseError::Expecting { value: "\\".to_string() }),
            );
        },
    }
    reader.read();
    let after = reader.state;
    match reader.read() {
        Some(c) => {
            if c == 'u' {
                unicode(reader)
            } else {
                match unescape(c) {
                    Some(v) => Ok(v),
                    None => Err(Error::new(after.pos, false, ParseError::EscapeChar)),
                }
            }
        },
        None => Err(Error::new(after.pos, false, ParseError::EscapeChar)),
    }
}

/// Reads one character of a string: an escape, or any character but the
/// delimiter `except` and the control characters.
pub fn any_char(except: char, reader: &mut Reader) -> (r: ParseResult<EncodedChar>)
    requires
        old(reader).wf(),
    ensures
        parsed(
            old(reader),
            final(reader),
            r,
            any_char_at(old(reader).source(), old(reader).state.cursor as int, except),
        ),
        r is Ok ==> final(reader).state.cursor > old(reader).state.cursor,
        r matches Ok(c) ==> c.pos == old(reader).state.pos && c.encoded@ == old(reader).text(
            old(reader).state.cursor as int,
            final(reader).state.cursor as int,
        ),
{
    let start = reader.state;
    match escape_char(reader) {
        Ok(c) => Ok(
            EncodedChar { value: c, encoded: reader.peek_back(start.cursor), pos: start.pos },
        ),
        Err(e) => {
            if e.recoverable {
                match reader.peek() {
                    None => Err(
                        Error::new(
                            start.pos,
                            true,
                            ParseError::Expecting { value: "char".to_string() },
                        ),
                    ),
                    Some(c) => {
                        if c == except || c == '\\' || c == '\x08' || c == '\n' || c == '\x0c'
                            || c == '\r' || c == '\t' {
                            Err(
                                Error::new(
                                    start.pos,
                                    true,
                                    ParseError::Expecting { value: "char".to_string() },
                                ),
                            )
                        } else {
                            reader.read();
                            Ok(
                                EncodedChar {
                                    value: c,
                                    encoded: reader.peek_back(start.cursor),
                                    pos: start.pos,
                                },
                            )
                        }
                    },
                }
            } else {
                Err(e)
            }
        },
    }
}

/// Where the scan of a string stands with respect to variable references.
#[derive(Clone, Copy, Debug, PartialEq, Eq)]
pub enum Scan {
    Text,
    FirstOpenBrace,
    Reference,
    FirstCloseBrace,
}

/// The name that the content of a variable reference holds, when the
/// content is a name with spaces around it and nothing else.
pub open spec fn reference_name(content: Seq<char>) -> Option<Seq<char>> {
    let a = spaces_end(content, 0);
    let b = run_end(content, CharClass::Name, a);
    if b > a && spaces_end(content, b) == content.len() {
        Some(content.subrange(a, b))
    } else {
        None
    }
}

/// The scan of a string for variable references, after some of its
/// characters: where it stands, what it has read of the text or of the
/// reference that is open, and the name of the first variable found.
pub struct Machine {
    pub state: Scan,
    pub content: Seq<char>,
    pub found: Option<Seq<char>>,
}

/// The scan before any character.
pub open spec fn start_machine() -> Machine {
    Machine { state: Scan::Text, content: Seq::empty(), found: None }
}

/// The scan after one more character, written as `encoded`. Two opening
/// braces open a reference and two closing braces close it; a reference
/// whose content is a name counts, and any other is text.
pub open spec fn step(m: Machine, encoded: Seq<char>) -> Machine {
    let is_open = encoded == seq!['{'];
    let is_close = encoded == seq!['}'];
    match m.state {
        Scan::Text => if is_open {
            Machine { state: Scan::FirstOpenBrace, content: m.content, found: m.found }
        } else {
            Machine { state: Scan::Text, content: m.content + encoded, found: m.found }
        },
        Scan::FirstOpenBrace => if is_open {
            Machine { state: Scan::Reference, content: Seq::empty(), found: m.found }
        } else {
            Machine {
                state: Scan::Text,
                content: m.content.push('{') + encoded,
                found: m.found,
            }
        },
        Scan::Reference => if is_close {
            Machine { state: Scan::FirstCloseBrace, content: m.content, found: m.found }
        } else {
            Machine { state: Scan::Reference, content: m.content + encoded, found: m.found }
        },
        Scan::FirstCloseBrace => if is_close {
            Machine {
                state: Scan::Text,
                content: Seq::empty(),
                found: if m.found is Some {
                    m.found
                } else {
                    reference_name(m.content)
                },
            }
        } else {
            Machine {
                state: Scan::Reference,
                content: m.content.push('}') + encoded,
                found: m.found,
            }
        },
    }
}

/// The scan after all the given characters.
pub open spec fn run(encodings: Seq<Seq<char>>) -> Machine
    decreases encodings.len(),
{
    if encodings.len() == 0 {
        start_machine()
    } else {
        step(run(encodings.drop_last()), encodings.last())
    }
}

/// The name of the first variable that a string of the given characters
/// refers to.
pub open spec fn first_in(encodings: Seq<Seq<char>>) -> Option<Seq<char>> {
    run(encodings).found
}

/// How the characters were written, one by one.
pub open spec fn encodings(chars: Seq<EncodedChar>) -> Seq<Seq<char>> {
    Seq::new(chars.len(), |i: int| chars[i].encoded@)
}

/// The characters of a string from index `i` on, as they are written: as
/// many as the rule of `any_char` reads.
pub open spec fn collected(src: Source, i: int, except: char) -> Seq<Seq<char>>
    decreases src.len() - i,
{
    match any_char_at(src, i, except) {
        Outcome::Done(j) => if i < j <= src.len() {
            seq![src.text.subrange(i, j)] + collected(src, j, except)
        } else {
            Seq::empty()
        },
        Outcome::Failed(_) => Seq::empty(),
    }
}

/// The characters of an unquoted string from index `i` on, as they are
/// written, without the spaces at its end. `pending` holds the spaces read
/// since the last character that is no space.
pub open spec fn kept(src: Source, i: int, pending: Seq<Seq<char>>) -> Seq<Seq<char>>
    decreases src.len() - i,
{
    match any_char_at(src, i, '#') {
        Outcome::Done(j) => if i < j <= src.len() {
            if j == i + 1 && src.text[i] == ' ' {
                kept(src, j, pending.push(src.text.subrange(i, j)))
            } else {
                pending + seq![src.text.subrange(i, j)] + kept(src, j, Seq::empty())
            }
        } else {
            Seq::empty()
        },
        Outcome::Failed(_) => Seq::empty(),
    }
}

/// Reads the variable reference whose content is `encoded` and starts at
/// `start`. Content that is no name with spaces around it is no reference.
fn reference(encoded: &Vec<char>, start: Pos) -> (r: Option<Expr>)
    ensures
        r matches Some(e) ==> e.encoded_spec() == open_braces() + encoded@ + close_braces(),
        match r {
            Some(e) => reference_name(encoded@) == Some(e.variable.name@),
            None => reference_name(encoded@) is None,
        },
{
    let mut copy: Vec<char> = Vec::new();
    extend_chars(&mut copy, encoded);
    assert(copy@ =~= encoded@);
    let mut reader = Reader::new_at(copy, start);
    let ghost src = reader.source();
    assert(src.text == encoded@);
    let expression = match expr::parse2(&mut reader) {
        Ok(e) => e,
        Err(_) => {
            assert(parse2_at(src, 0) is Failed);
            return None;
        },
    };
    assert(parse2_at(src, 0) == Outcome::Done(reader.state.cursor as int));
    if !reader.is_eof() {
        return None;
    }
    assert(expression.variable.name@ == name_at(encoded@, 0));
    proof {
        assert(reader.text(0, encoded@.len() as int) =~= encoded@);
        let middle = expression.space0.value@ + expression.variable.name@
            + expression.space1.value@;
        assert(expression.encoded_spec() =~= open_braces() + middle + close_braces());
    }
    Some(expression)
}

/// What has been read of a string and is not yet part of an element.
spec fn pending(state: Scan, encoded: Seq<char>) -> Seq<char> {
    match state {
        Scan::Text => encoded,
        Scan::FirstOpenBrace => encoded + seq!['{'],
        Scan::Reference => open_braces() + encoded,
        Scan::FirstCloseBrace => open_braces() + encoded + seq!['}'],
    }
}

/// Adds literal text to the elements, unless it is empty.
fn push_text(elements: &mut Vec<TemplateElement>, value: &Vec<char>, encoded: &Vec<char>)
    ensures
        elements_encoded(final(elements)@) == elements_encoded(old(elements)@) + encoded@,
        first_reference(final(elements)@) == first_reference(old(elements)@),
{
    if encoded.len() > 0 {
        elements.push(
            TemplateElement::String { value: string_of(value), encoded: string_of(encoded) },
        );
        assert(elements@.drop_last() =~= old(elements)@);
    } else {
        assert(elements_encoded(old(elements)@) + encoded@ =~= elements_encoded(old(elements)@));
    }
}

/// The text between two braces, with the braces, as literal characters.
fn braced(content: &Vec<char>, closing: usize) -> (r: Vec<char>)
    requires
        closing <= 2,
    ensures
        r@ == open_braces() + content@ + (if closing == 0 {
            Seq::<char>::empty()
        } else if closing == 1 {
            seq!['}']
        } else {
            close_braces()
        }),
{
    let mut out: Vec<char> = Vec::new();
    out.push('{');
    out.push('{');
    extend_chars(&mut out, content);
    let mut i: usize = 0;
    while i < closing
        invariant
            i <= closing <= 2,
            out@ == open_braces() + content@ + (if i == 0 {
                Seq::<char>::empty()
            } else if i == 1 {
                seq!['}']
            } else {
                close_braces()
            }),
        decreases closing - i,
    {
        out.push('}');
        i += 1;
        assert(out@ =~= open_braces() + content@ + (if i == 0 {
            Seq::<char>::empty()
        } else if i == 1 {
            seq!['}']
        } else {
            close_braces()
        }));
    }
    assert(out@ =~= open_braces() + content@ + (if closing == 0 {
        Seq::<char>::empty()
    } else if closing == 1 {
        seq!['}']
    } else {
        close_braces()
    }));
    out
}

/// Splits the characters of a string into literal text and variable
/// references: a reference is two opening braces, a name with spaces around
/// it, and two closing braces; anything else is literal text. The elements
/// are written as the characters were.
pub fn templatize(chars: Vec<EncodedChar>) -> (r: Vec<TemplateElement>)
    ensures
        elements_encoded(r@) == flat(chars@),
        first_reference(r@) == first_in(encodings(chars@)),
{
    let mut elements: Vec<TemplateElement> = Vec::new();
    let mut value: Vec<char> = Vec::new();
    let mut encoded: Vec<char> = Vec::new();
    let mut state = Scan::Text;
    let mut expression_start: Option<Pos> = None;
    assert(elements_encoded(elements@) + pending(state, encoded@) =~= flat(chars@.take(0)));
    assert(encodings(chars@.take(0)) =~= Seq::<Seq<char>>::empty());
    for c in it: chars
        invariant
            it.seq() == chars@,
            elements_encoded(elements@) + pending(state, encoded@) == flat(
                chars@.take(it.index()),
            ),
            run(encodings(chars@.take(it.index()))) == (Machine {
                state,
                content: encoded@,
                found: first_reference(elements@),
            }),
    {
        let ghost machine = run(encodings(chars@.take(it.index())));
        proof {
            let longer = encodings(chars@.take(it.index() + 1));
            assert(longer.drop_last() =~= encodings(chars@.take(it.index())));
            assert(longer.last() == c.encoded@);
        }
        let ghost before = elements_encoded(elements@);
        let ghost old_pending = pending(state, encoded@);
        let ghost old_encoded = encoded@;
        assert(chars@.take(it.index() + 1).drop_last() == chars@.take(it.index()));
        assert(chars@.take(it.index() + 1).last() == c);
        let s = chars_of(c.encoded.as_str());
        let is_open = s.len() == 1 && s[0] == '{';
        let is_close = s.len() == 1 && s[0] == '}';
        proof {
            if is_open {
                assert(s@ =~= seq!['{']);
            }
            if is_close {
                assert(s@ =~= seq!['}']);
            }
        }
        match state {
            Scan::Reference => {
                if expression_start.is_none() {
                    expression_start = Some(c.pos);
                }
                if is_close {
                    state = Scan::FirstCloseBrace;
                } else {
                    value.push(c.value);
                    extend_chars(&mut encoded, &s);
                }
            },
            Scan::FirstOpenBrace => {
                if is_open {
                    push_text(&mut elements, &value, &encoded);
                    value = Vec::new();
                    encoded = Vec::new();
                    expression_start = None;
                    state = Scan::Reference;
                } else {
                    value.push('{');
                    encoded.push('{');
                    value.push(c.value);
                    extend_chars(&mut encoded, &s);
                    state = Scan::Text;
                }
            },
            Scan::FirstCloseBrace => {
                if is_close {
                    let start = match expression_start {
                        Some(p) => p,
                        None => c.pos,
                    };
                    match reference(&encoded, start) {
                        Some(expression) => {
                            let ghost prior = elements@;
                            elements.push(TemplateElement::Expression(expression));
                            assert(elements@.drop_last() =~= prior);
                            assert(elements@.last() == TemplateElement::Expression(expression));
                        },
                        None => {
                            push_text(&mut elements, &braced(&value, 2), &braced(&encoded, 2));
                        },
                    }
                    value = Vec::new();
                    encoded = Vec::new();
                    expression_start = None;
                    state = Scan::Text;
                } else {
                    value.push('}');
                    encoded.push('}');
                    value.push(c.value);
                    extend_chars(&mut encoded, &s);
                    state = Scan::Reference;
                }
            },
            Scan::Text => {
                if is_open {
                    state = Scan::FirstOpenBrace;
                } else {
                    value.push(c.value);
                    extend_chars(&mut encoded, &s);
                }
            },
        }
        assert(elements_encoded(elements@) + pending(state, encoded@) =~= before + old_pending
            + s@);
        assert((Machine { state, content: encoded@, found: first_reference(elements@) })
            == step(machine, c.encoded@)) by {
            assert(encoded@ =~= step(machine, c.encoded@).content);
        }
    }
    assert(chars@.take(chars@.len() as int) == chars@);
    let ghost before = elements_encoded(elements@);
    match state {
        Scan::Text => {
            push_text(&mut elements, &value, &encoded);
        },
        Scan::FirstOpenBrace => {
            value.push('{');
            encoded.push('{');
            push_text(&mut elements, &value, &encoded);
        },
        Scan::Reference => {
            push_text(&mut elements, &braced(&value, 0), &braced(&encoded, 0));
        },
        Scan::FirstCloseBrace => {
            push_text(&mut elements, &braced(&value, 1), &braced(&encoded, 1));
        },
    }
    assert(elements_encoded(elements@) =~= flat(chars@));
    elements
}

/// The delimiter as a string.
fn quote_of(delimiter: char) -> (r: String)
    ensures
        r@ == seq![delimiter],
{
    let mut v: Vec<char> = Vec::new();
    v.push(delimiter);
    assert(v@ =~= seq![delimiter]);
    string_of(&v)
}

/// Reads a template between two delimiters, which are double quotes or
/// backticks. Text that does not start with the delimiter is left to another
/// rule.
pub fn delimited_template(delimiter: char, reader: &mut Reader) -> (r: ParseResult<Template>)
    requires
        old(reader).wf(),
    ensures
        parsed(
            old(reader),
            final(reader),
            r,
            delimited_template_at(old(reader).source(), old(reader).state.cursor as int, delimiter),
        ),
        r matches Ok(t) ==> {
            &&& final(reader).state.cursor >= old(reader).state.cursor + 2
            &&& t.delimiter == Some(delimiter)
            &&& t.source_info == (SourceInfo {
                start: old(reader).state.pos,
                end: final(reader).state.pos,
            })
            &&& t.encoded_spec() == old(reader).text(
                old(reader).state.cursor as int,
                final(reader).state.cursor as int,
            )
            &&& elements_encoded(t.elements@) == old(reader).text(
                old(reader).state.cursor + 1,
                final(reader).state.cursor - 1,
            )
            &&& first_reference(t.elements@) == first_in(
                collected(old(reader).source(), old(reader).state.cursor + 1, delimiter),
            )
        },
{
    let start = reader.state;
    match reader.peek() {
        Some(c) => {
            if c != delimiter {
                return Err(
                    Error::new(start.pos, true, ParseError::Expecting { value: quote_of(delimiter) }),
                );
            }
        },
        None => {
            return Err(
                Error::new(start.pos, true, ParseError::Expecting { value: quote_of(delimiter) }),
            );
        },
    }
    reader.read();
    let ghost first = reader.state.cursor as int;
    let mut chars: Vec<EncodedChar> = Vec::new();
    assert(flat(chars@) =~= reader.text(first, first));
    assert(encodings(chars@) + collected(reader.source(), first, delimiter) =~= collected(
        reader.source(),
        first,
        delimiter,
    ));
    loop
        invariant
            reader.follows(old(reader)),
            old(reader).wf(),
            start == old(reader).state,
            first == start.cursor + 1,
            encodings(chars@) + collected(
                reader.source(),
                reader.state.cursor as int,
                delimiter,
            ) == collected(reader.source(), first, delimiter),
            reader.state.cursor >= first,
            old(reader).buffer@[old(reader).state.cursor as int] == delimiter,
            chars_at(reader.source(), first, delimiter) == chars_at(
                reader.source(),
                reader.state.cursor as int,
                delimiter,
            ),
            flat(chars@) == reader.text(first, reader.state.cursor as int),
        ensures
            chars_at(reader.source(), reader.state.cursor as int, delimiter) == Outcome::Done(
                reader.state.cursor as int,
            ),
            encodings(chars@) == collected(reader.source(), first, delimiter),
        decreases reader.buffer@.len() - reader.state.cursor,
    {
        let ghost at = reader.state.cursor as int;
        let ghost rest = collected(reader.source(), at, delimiter);
        match any_char(delimiter, reader) {
            Err(e) => {
                if e.recoverable {
                    assert(encodings(chars@) + rest =~= encodings(chars@));
                    break ;
                } else {
                    return Err(e);
                }
            },
            Ok(c) => {
                let ghost prior = chars@;
                chars.push(c);
                assert(chars@.drop_last() =~= prior);
                assert(flat(chars@) =~= reader.text(first, reader.state.cursor as int));
                assert(encodings(chars@) =~= encodings(prior).push(c.encoded@));
                assert(encodings(chars@) + collected(
                    reader.source(),
                    reader.state.cursor as int,
                    delimiter,
                ) =~= encodings(prior) + rest);
            },
        }
    }
    match reader.peek() {
        Some(c) => {
            if c != delimiter {
                return Err(
                    Error::new(
                        reader.state.pos,
                        false,
                        ParseError::Expecting { value: quote_of(delimiter) },
                    ),
                );
            }
        },
        None => {
            return Err(
                Error::new(
                    reader.state.pos,
                    false,
                    ParseError::Expecting { value: quote_of(delimiter) },
                ),
            );
        },
    }
    let ghost last = reader.state.cursor as int;
    reader.read();
    let elements = templatize(chars);
    let t = Template {
        delimiter: Some(delimiter),
        elements,
        source_info: SourceInfo::new(start.pos, reader.state.pos),
    };
    proof {
        assert(reader.text(start.cursor as int, first) =~= seq![delimiter]);
        assert(reader.text(last, last + 1) =~= seq![delimiter]);
        assert(t.encoded_spec() =~= reader.text(start.cursor as int, reader.state.cursor as int));
    }
    Ok(t)
}

/// Reads a template between double quotes.
pub fn quoted_template(reader: &mut Reader) -> (r: ParseResult<Template>)
    requires
        old(reader).wf(),
    ensures
        parsed(
            old(reader),
            final(reader),
            r,
            delimited_template_at(old(reader).source(), old(reader).state.cursor as int, '"'),
        ),
        r matches Ok(t) ==> {
            &&& final(reader).state.cursor >= old(reader).state.cursor + 2
            &&& t.delimiter == Some('"')
            &&& t.source_info == (SourceInfo {
                start: old(reader).state.pos,
                end: final(reader).state.pos,
            })
            &&& t.encoded_spec() == old(reader).text(
                old(reader).state.cursor as int,
                final(reader).state.cursor as int,
            )
            &&& elements_encoded(t.elements@) == old(reader).text(
                old(reader).state.cursor + 1,
                final(reader).state.cursor - 1,
            )
            &&& first_reference(t.elements@) == first_in(
                collected(old(reader).source(), old(reader).state.cursor + 1, '"'),
            )
        },
{
    delimited_template('"', reader)
}

/// Reads a template between backticks.
pub fn backtick_template(reader: &mut Reader) -> (r: ParseResult<Template>)
    requires
        old(reader).wf(),
    ensures
        parsed(
            old(reader),
            final(reader),
            r,
            delimited_template_at(old(reader).source(), old(reader).state.cursor as int, '`'),
        ),
        r matches Ok(t) ==> {
            &&& final(reader).state.cursor >= old(reader).state.cursor + 2
            &&& t.delimiter == Some('`')
            &&& t.source_info == (SourceInfo {
                start: old(reader).state.pos,
                end: final(reader).state.pos,
            })
            &&& t.encoded_spec() == old(reader).text(
                old(reader).state.cursor as int,
                final(reader).state.cursor as int,
            )
            &&& elements_encoded(t.elements@) == old(reader).text(
                old(reader).state.cursor + 1,
                final(reader).state.cursor - 1,
            )
            &&& first_reference(t.elements@) == first_in(
                collected(old(reader).source(), old(reader).state.cursor + 1, '`'),
            )
        },
{
    delimited_template('`', reader)
}

/// Whether the character was written as one space.
fn is_single_space(c: &EncodedChar) -> (r: bool)
    ensures
        r == (c.encoded@ == seq![' ']),
{
    let s = chars_of(c.encoded.as_str());
    let r = s.len() == 1 && s[0] == ' ';
    assert(r == (s@ =~= seq![' ']));
    r
}

/// Reads a template that runs to the end of the line or to a comment.
/// Spaces at its end are left unread.
pub fn unquoted_template(reader: &mut Reader) -> (r: ParseResult<Template>)
    requires
        old(reader).wf(),
    ensures
        parsed(
            old(reader),
            final(reader),
            r,
            unquoted_template_at(old(reader).source(), old(reader).state.cursor as int),
        ),
        r matches Err(e) ==> !e.recoverable,
        r matches Ok(t) ==> {
            &&& t.delimiter is None
            &&& t.source_info == (SourceInfo {
                start: old(reader).state.pos,
                end: final(reader).state.pos,
            })
            &&& t.encoded_spec() == old(reader).text(
                old(reader).state.cursor as int,
                final(reader).state.cursor as int,
            )
            &&& first_reference(t.elements@) == first_in(
                kept(old(reader).source(), old(reader).state.cursor as int, Seq::empty()),
            )
        },
{
    let start = reader.state;
    let mut chars: Vec<EncodedChar> = Vec::new();
    let mut spaces: Vec<EncodedChar> = Vec::new();
    let mut end = start;
    assert(flat(chars@) =~= reader.text(start.cursor as int, start.cursor as int));
    assert(flat(spaces@) =~= Seq::<char>::empty());
    assert(encodings(spaces@) =~= Seq::<Seq<char>>::empty());
    assert(encodings(chars@) + kept(reader.source(), start.cursor as int, Seq::empty()) =~= kept(
        reader.source(),
        start.cursor as int,
        Seq::empty(),
    ));
    loop
        invariant
            reader.follows(old(reader)),
            old(reader).wf(),
            start == old(reader).state,
            start.cursor <= end.cursor <= reader.state.cursor,
            encodings(chars@) + kept(
                reader.source(),
                reader.state.cursor as int,
                encodings(spaces@),
            ) == kept(reader.source(), start.cursor as int, Seq::empty()),
            end.pos == reader.pos_of(end.cursor as int),
            content_at(reader.source(), start.cursor as int, start.cursor as int) == content_at(
                reader.source(),
                reader.state.cursor as int,
                end.cursor as int,
            ),
            flat(chars@) == reader.text(start.cursor as int, end.cursor as int),
            flat(spaces@) == reader.text(end.cursor as int, reader.state.cursor as int),
        ensures
            content_at(reader.source(), reader.state.cursor as int, end.cursor as int)
                == Outcome::Done(end.cursor as int),
            encodings(chars@) == kept(reader.source(), start.cursor as int, Seq::empty()),
        decreases reader.buffer@.len() - reader.state.cursor,
    {
        let ghost at = reader.state.cursor as int;
        let ghost rest = kept(reader.source(), at, encodings(spaces@));
        let ghost pending = encodings(spaces@);
        let ghost before = encodings(chars@);
        match any_char('#', reader) {
            Err(e) => {
                if e.recoverable {
                    assert(encodings(chars@) + rest =~= encodings(chars@));
                    break ;
                } else {
                    return Err(e);
                }
            },
            Ok(c) => {
                proof {
                    if c.encoded@ == seq![' '] {
                        assert(reader.text(at, reader.state.cursor as int).len() == 1);
                        assert(reader.text(at, reader.state.cursor as int)[0] == ' ');
                    }
                    if reader.state.cursor == at + 1 && reader.buffer@[at] == ' ' {
                        assert(reader.text(at, reader.state.cursor as int) =~= seq![' ']);
                    }
                }
                if is_single_space(&c) {
                    let ghost prior = spaces@;
                    spaces.push(c);
                    assert(spaces@.drop_last() =~= prior);
                    assert(flat(spaces@) =~= reader.text(
                        end.cursor as int,
                        reader.state.cursor as int,
                    ));
                    assert(encodings(spaces@) =~= pending.push(c.encoded@));
                } else {
                    proof {
                        lemma_flat_add(chars@, spaces@);
                    }
                    let ghost joined = chars@ + spaces@;
                    chars.append(&mut spaces);
                    chars.push(c);
                    assert(chars@.drop_last() =~= joined);
                    assert(encodings(chars@) =~= before + pending + seq![c.encoded@]);
                    assert(encodings(spaces@) =~= Seq::<Seq<char>>::empty());
                    assert(encodings(chars@) + kept(
                        reader.source(),
                        reader.state.cursor as int,
                        Seq::empty(),
                    ) =~= before + rest);
                    end = reader.state;
                    assert(flat(chars@) =~= reader.text(start.cursor as int, end.cursor as int));
                    assert(flat(spaces@) =~= reader.text(
                        end.cursor as int,
                        reader.state.cursor as int,
                    ));
                }
            },
        }
    }
    reader.restore(end);
    let elements = templatize(chars);
    let t = Template { delimiter: None, elements, source_info: SourceInfo::new(start.pos, end.pos) };
    assert(t.encoded_spec() =~= elements_encoded(t.elements@));
    Ok(t)
}

/// Reads the text between two double quotes on one line.
pub fn quoted_oneline_string(reader: &mut Reader) -> (r: ParseResult<String>)
    requires
        old(reader).wf(),
    ensures
        parsed(
            old(reader),
            final(reader),
            r,
            quoted_oneline_string_at(old(reader).source(), old(reader).state.cursor as int),
        ),
        r matches Ok(s) ==> {
            &&& final(reader).state.cursor == old(reader).state.cursor + s@.len() + 2
            &&& s@ == old(reader).text(
                old(reader).state.cursor + 1,
                final(reader).state.cursor - 1,
            )
        },
{
    match literal("\"", reader) {
        Ok(_) => {},
        Err(e) => {
            return Err(e);
        },
    }
    proof {
        reveal_strlit("\"");
    }
    let s = reader.read_while(CharClass::NotQuote);
    match literal("\"", reader) {
        Ok(_) => {},
        Err(e) => {
            return Err(e);
        },
    }
    Ok(s)
}

} // verus!
