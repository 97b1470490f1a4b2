//! JSON values, kept as they were written.

use vstd::prelude::*;

use crate::ast::{
    lemma_list_encoded_prefix, lemma_object_encoded_prefix, list_encoded, member_head,
    object_encoded, JsonListElement, JsonObjectElement, JsonValue, SourceInfo, Template,
};
use crate::parser::error::{Error, JsonError, ParseError, ParseErrorView};
use crate::parser::expr;
use crate::parser::key_string::{unicode, unicode_at};
use crate::parser::number::digits_start;
use crate::parser::predicate_value::{boolean, boolean_at, null, null_at, or_else};
use crate::parser::primitives::{
    expecting, fail, literal, literal_at, parsed, try_literal, try_literal_at, Outcome,
    ParseResult,
};
use crate::parser::reader::{run_end, CharClass, Reader, Source};
use crate::parser::string::{templatize, EncodedChar};

verus! {

/// Whether the character is a blank that JSON allows between its tokens.
pub open spec fn is_blank(c: char) -> bool {
    c == ' ' || c == '\t' || c == '\n' || c == '\r'
}

/// The first index at or after `i` that holds no blank.
pub open spec fn blanks_end(text: Seq<char>, i: int) -> int
    decreases text.len() - i,
{
    if 0 <= i < text.len() && is_blank(text[i]) {
        blanks_end(text, i + 1)
    } else {
        i
    }
}

/// Blanks end within the text, at or after their start.
pub proof fn lemma_blanks_end(text: Seq<char>, i: int)
    requires
        0 <= i <= text.len(),
    ensures
        i <= blanks_end(text, i) <= text.len(),
    decreases text.len() - i,
{
    if i < text.len() && is_blank(text[i]) {
        lemma_blanks_end(text, i + 1);
    }
}

/// Whether the letter after a backslash stands for one character.
pub open spec fn is_escape_letter(c: char) -> bool {
    c == '"' || c == '\\' || c == '/' || c == 'b' || c == 'n' || c == 'f' || c == 'r' || c == 't'
}

/// The rule of a character of a JSON string: an escape, or any character
/// but the double quote, the backslash and the control characters.
pub open spec fn string_char_at(src: Source, i: int) -> Outcome {
    if !(0 <= i < src.len()) {
        fail(src.pos(i), true, expecting("char"@))
    } else if src.text[i] == '\\' {
        if i + 1 >= src.len() {
            fail(src.pos(i + 1), false, ParseErrorView::EscapeChar)
        } else if is_escape_letter(src.text[i + 1]) {
            Outcome::Done(i + 2)
        } else if src.text[i + 1] == 'u' {
            unicode_at(src, i + 2)
        } else {
            fail(src.pos(i + 1), false, ParseErrorView::EscapeChar)
        }
    } else if src.text[i] == '"' || (src.text[i] as u32) < 32 {
        fail(src.pos(i), true, expecting("char"@))
    } else {
        Outcome::Done(i + 1)
    }
}

/// The rule of the characters of a JSON string: as many as there are.
pub open spec fn string_chars_at(src: Source, i: int) -> Outcome
    decreases src.len() - i,
{
    match string_char_at(src, i) {
        Outcome::Done(j) => if i < j <= src.len() {
            string_chars_at(src, j)
        } else {
            Outcome::Done(i)
        },
        Outcome::Failed(e) => if e.recoverable {
            Outcome::Done(i)
        } else {
            Outcome::Failed(e)
        },
    }
}

/// The rule of a JSON string: a double quote, its characters, a double
/// quote.
pub open spec fn string_at(src: Source, i: int) -> Outcome {
    match try_literal_at(src, i, "\""@) {
        Outcome::Done(a) => match string_chars_at(src, a) {
            Outcome::Done(b) => literal_at(src, b, "\""@),
            Outcome::Failed(e) => Outcome::Failed(e),
        },
        Outcome::Failed(e) => Outcome::Failed(e),
    }
}

/// Where the exponent that may start at `i` ends, or the failure of an
/// exponent without digits.
pub open spec fn exponent_at(src: Source, i: int) -> Outcome {
    if 0 <= i < src.len() && (src.text[i] == 'e' || src.text[i] == 'E') {
        let s = if i + 1 < src.len() && (src.text[i + 1] == '+' || src.text[i + 1] == '-') {
            i + 2
        } else {
            i + 1
        };
        if run_end(src.text, CharClass::Digit, s) <= s {
            fail(src.pos(s), false, expecting("digits"@))
        } else {
            Outcome::Done(run_end(src.text, CharClass::Digit, s))
        }
    } else {
        Outcome::Done(i)
    }
}

/// The rule of a JSON number: an optional minus sign, digits with no zero
/// in front of other digits, optionally a point and digits, optionally an
/// exponent.
pub open spec fn number_at(src: Source, i: int) -> Outcome {
    let a = digits_start(src, i);
    let n = run_end(src.text, CharClass::Digit, a);
    if n <= a {
        fail(src.pos(i), true, expecting("number"@))
    } else if src.text[a] == '0' && n > a + 1 {
        fail(src.pos(i), false, expecting("number"@))
    } else if 0 <= n < src.len() && src.text[n] == '.' {
        if run_end(src.text, CharClass::Digit, n + 1) <= n + 1 {
            fail(src.pos(n + 1), false, expecting("digits"@))
        } else {
            exponent_at(src, run_end(src.text, CharClass::Digit, n + 1))
        }
    } else {
        exponent_at(src, n)
    }
}

/// Whether the character `c` stands at index `i`.
pub open spec fn has_char(src: Source, i: int, c: char) -> bool {
    0 <= i < src.len() && src.text[i] == c
}

/// The rule of a JSON value: `null`, a boolean, a string, a number, a
/// variable reference, a list or an object, tried in this order.
pub open spec fn json_at(src: Source, i: int) -> Outcome
    decreases src.len() - i, 3nat,
{
    or_else(
        null_at(src, i),
        or_else(
            boolean_at(src, i),
            or_else(
                string_at(src, i),
                or_else(
                    number_at(src, i),
                    or_else(expr::parse_at(src, i), or_else(list_value_at(src, i), object_value_at(src, i))),
                ),
            ),
        ),
    )
}

/// The rule of a JSON list: an opening bracket, blanks, elements with
/// commas between them, a closing bracket.
pub open spec fn list_value_at(src: Source, i: int) -> Outcome
    decreases src.len() - i, 2nat,
{
    if has_char(src, i, '[') {
        let a = blanks_end(src.text, i + 1);
        if has_char(src, a, ']') {
            Outcome::Done(a + 1)
        } else if i < a <= src.len() {
            list_at(src, a)
        } else {
            Outcome::Done(i)
        }
    } else {
        fail(src.pos(i), true, expecting("["@))
    }
}

/// The rule of a JSON object: an opening brace, blanks, members with commas
/// between them, a closing brace.
pub open spec fn object_value_at(src: Source, i: int) -> Outcome
    decreases src.len() - i, 2nat,
{
    if has_char(src, i, '{') {
        let a = blanks_end(src.text, i + 1);
        if has_char(src, a, '}') {
            Outcome::Done(a + 1)
        } else if i < a <= src.len() {
            object_at(src, a)
        } else {
            Outcome::Done(i)
        }
    } else {
        fail(src.pos(i), true, expecting("json"@))
    }
}

/// The rule of an element of a JSON list: a value, with blanks around it.
pub open spec fn element_at(src: Source, i: int) -> Outcome
    decreases src.len() - i, 4nat,
{
    let a = blanks_end(src.text, i);
    if !(i <= a <= src.len()) {
        Outcome::Done(i)
    } else {
        match json_at(src, a) {
            Outcome::Done(b) => Outcome::Done(blanks_end(src.text, b)),
            Outcome::Failed(_) => fail(
                src.pos(i),
                false,
                ParseErrorView::Json(JsonError::ExpectingElement),
            ),
        }
    }
}

/// The rule of the elements of a JSON list, from the element that starts at
/// `i` on, up to the closing bracket.
pub open spec fn list_at(src: Source, i: int) -> Outcome
    decreases src.len() - i, 5nat,
{
    match element_at(src, i) {
        Outcome::Done(c) => if has_char(src, c, ',') && i <= c {
            if has_char(src, c + 1, ']') {
                fail(src.pos(c), false, ParseErrorView::Json(JsonError::TrailingComma))
            } else {
                list_at(src, c + 1)
            }
        } else {
            literal_at(src, c, "]"@)
        },
        Outcome::Failed(e) => Outcome::Failed(e),
    }
}

/// The rule of the name of a member of a JSON object: blanks, a string,
/// blanks, a colon.
pub open spec fn member_name_at(src: Source, i: int) -> Outcome {
    match string_at(src, blanks_end(src.text, i)) {
        Outcome::Done(a) => literal_at(src, blanks_end(src.text, a), ":"@),
        Outcome::Failed(e) => fail(e.pos, false, expecting("\""@)),
    }
}

/// The rule of a member of a JSON object: a name, a colon and a value, with
/// blanks around them.
pub open spec fn member_at(src: Source, i: int) -> Outcome
    decreases src.len() - i, 4nat,
{
    match member_name_at(src, i) {
        Outcome::Done(b) => {
            let v = blanks_end(src.text, b);
            if !(i <= v <= src.len()) {
                Outcome::Done(i)
            } else {
                match json_at(src, v) {
                    Outcome::Done(c) => Outcome::Done(blanks_end(src.text, c)),
                    Outcome::Failed(_) => fail(
                        src.pos(b),
                        false,
                        ParseErrorView::Json(JsonError::ExpectingElement),
                    ),
                }
            }
        },
        Outcome::Failed(e) => Outcome::Failed(e),
    }
}

/// The rule of the members of a JSON object, from the member that starts at
/// `i` on, up to the closing brace.
pub open spec fn object_at(src: Source, i: int) -> Outcome
    decreases src.len() - i, 5nat,
{
    match member_at(src, i) {
        Outcome::Done(d) => if has_char(src, d, ',') && i <= d {
            if has_char(src, d + 1, '}') {
                fail(src.pos(d), false, ParseErrorView::Json(JsonError::TrailingComma))
            } else {
                object_at(src, d + 1)
            }
        } else {
            literal_at(src, d, "}"@)
        },
        Outcome::Failed(e) => Outcome::Failed(e),
    }
}

/// The name of a member of a JSON object, with what stands around it up to
/// its colon, as it was written.
pub open spec fn member_name_text(space0: Seq<char>, name: Template, space1: Seq<char>) -> Seq<
    char,
> {
    space0 + seq!['"'] + crate::ast::elements_encoded(name.elements@) + seq!['"'] + space1
        + seq![':']
}

/// Reads the blanks that JSON allows between its tokens.
fn whitespace(reader: &mut Reader) -> (r: String)
    requires
        old(reader).wf(),
    ensures
        final(reader).follows(old(reader)),
        final(reader).state.cursor == blanks_end(
            old(reader).buffer@,
            old(reader).state.cursor as int,
        ),
        r@ == old(reader).text(old(reader).state.cursor as int, final(reader).state.cursor as int),
{
    let start = reader.state.cursor;
    loop
        invariant
            reader.follows(old(reader)),
            start == old(reader).state.cursor,
            blanks_end(reader.buffer@, start as int) == blanks_end(
                reader.buffer@,
                reader.state.cursor as int,
            ),
        ensures
            blanks_end(reader.buffer@, reader.state.cursor as int) == reader.state.cursor,
        decreases reader.buffer@.len() - reader.state.cursor,
    {
        match reader.peek() {
            Some(c) => {
                if c == ' ' || c == '\t' || c == '\n' || c == '\r' {
                    reader.read();
                } else {
                    break ;
                }
            },
            None => {
                break ;
            },
        }
    }
    reader.peek_back(start)
}

/// The character that an escape letter of JSON stands for.
fn unescape(c: char) -> (r: Option<char>)
    ensures
        r is Some <==> is_escape_letter(c),
{
    if c == '"' || c == '\\' || c == '/' {
        Some(c)
    } else if c == 'b' {
        Some('\x08')
    } else if c == 'n' {
        Some('\n')
    } else if c == 'f' {
        Some('\x0c')
    } else if c == 'r' {
        Some('\r')
    } else if c == 't' {
        Some('\t')
    } else {
        None
    }
}

/// Reads one character of a JSON string: an escape, or any character but
/// the double quote, the backslash and the control characters. The closing
/// quote and the end of the text are left to another rule.
fn string_char(reader: &mut Reader) -> (r: ParseResult<EncodedChar>)
    requires
        old(reader).wf(),
    ensures
        parsed(
            old(reader),
            final(reader),
            r,
            string_char_at(old(reader).source(), old(reader).state.cursor as int),
        ),
        r is Ok ==> final(reader).state.cursor > old(reader).state.cursor,
        r matches Ok(c) ==> c.encoded@ == old(reader).text(
            old(reader).state.cursor as int,
            final(reader).state.cursor as int,
        ),
{
    let start = reader.state;
    match reader.peek() {
        None => Err(Error::new(start.pos, true, ParseError::Expecting { value: "char".to_string() })),
        Some(c) => {
            if c == '\\' {
                reader.read();
                let escape = reader.state;
                let value = match reader.read() {
                    Some(e) => match unescape(e) {
                        Some(v) => v,
                        None => {
                            if e == 'u' {
                                match unicode(reader) {
                                    Ok(c) => c,
                                    Err(e) => {
                                        return Err(e);
                                    },
                                }
                            } else {
                                return Err(Error::new(escape.pos, false, ParseError::EscapeChar));
                            }
                        },
                    },
                    None => {
                        return Err(Error::new(escape.pos, false, ParseError::EscapeChar));
                    },
                };
                Ok(EncodedChar { value, encoded: reader.peek_back(start.cursor), pos: start.pos })
            } else if c == '"' || (c as u32) < 32 {
                Err(Error::new(start.pos, true, ParseError::Expecting { value: "char".to_string() }))
            } else {
                reader.read();
                Ok(
                    EncodedChar {
                        value: c,
                        encoded: reader.peek_back(start.cursor),
                        pos: start.pos,
                    },
                )
            }
        },
    }
}

/// Reads a JSON string, which may hold variable references. Text that does
/// not start with a double quote is left to another rule.
fn string_template(reader: &mut Reader) -> (r: ParseResult<Template>)
    requires
        old(reader).wf(),
    ensures
        parsed(
            old(reader),
            final(reader),
            r,
            string_at(old(reader).source(), old(reader).state.cursor as int),
        ),
        r matches Ok(t) ==> {
            &&& final(reader).state.cursor >= old(reader).state.cursor + 2
            &&& crate::ast::elements_encoded(t.elements@) == old(reader).text(
                old(reader).state.cursor + 1,
                final(reader).state.cursor - 1,
            )
        },
{
    proof {
        reveal_strlit("\"");
    }
    match try_literal("\"", reader) {
        Ok(_) => {},
        Err(e) => {
            return Err(e);
        },
    }
    let start = reader.state;
    let mut chars: Vec<EncodedChar> = Vec::new();
    assert(crate::parser::string::flat(chars@) =~= reader.text(
        start.cursor as int,
        start.cursor as int,
    ));
    loop
        invariant
            reader.follows(old(reader)),
            old(reader).wf(),
            start.cursor == old(reader).state.cursor + 1,
            reader.state.cursor >= start.cursor,
            try_literal_at(old(reader).source(), old(reader).state.cursor as int, "\""@)
                == Outcome::Done(start.cursor as int),
            string_chars_at(reader.source(), start.cursor as int) == string_chars_at(
                reader.source(),
                reader.state.cursor as int,
            ),
            crate::parser::string::flat(chars@) == reader.text(
                start.cursor as int,
                reader.state.cursor as int,
            ),
        ensures
            string_chars_at(reader.source(), reader.state.cursor as int) == Outcome::Done(
                reader.state.cursor as int,
            ),
        decreases reader.buffer@.len() - reader.state.cursor,
    {
        match string_char(reader) {
            Ok(c) => {
                let ghost prior = chars@;
                chars.push(c);
                assert(chars@.drop_last() =~= prior);
                assert(crate::parser::string::flat(chars@) =~= reader.text(
                    start.cursor as int,
                    reader.state.cursor as int,
                ));
            },
            Err(e) => {
                if e.recoverable {
                    break ;
                } else {
                    return Err(e);
                }
            },
        }
    }
    let end = reader.state;
    match literal("\"", reader) {
        Ok(_) => {},
        Err(e) => {
            return Err(e);
        },
    }
    let elements = templatize(chars);
    Ok(Template { delimiter: None, elements, source_info: SourceInfo::new(start.pos, end.pos) })
}

/// Reads the exponent of a JSON number, if there is one.
fn exponent(reader: &mut Reader) -> (r: ParseResult<()>)
    requires
        old(reader).wf(),
    ensures
        parsed(
            old(reader),
            final(reader),
            r,
            exponent_at(old(reader).source(), old(reader).state.cursor as int),
        ),
        r matches Err(e) ==> !e.recoverable,
{
    let has_exponent = match reader.peek() {
        Some(c) => c == 'e' || c == 'E',
        None => false,
    };
    if has_exponent {
        reader.read();
        let signed = match reader.peek() {
            Some(c) => c == '+' || c == '-',
            None => false,
        };
        if signed {
            reader.read();
        }
        let before = reader.state;
        let _ = reader.read_while(CharClass::Digit);
        if reader.state.cursor == before.cursor {
            return Err(
                Error::new(before.pos, false, ParseError::Expecting { value: "digits".to_string() }),
            );
        }
    }
    Ok(())
}

/// Reads a JSON number and gives its text. Text that does not start with a
/// digit or a minus sign followed by a digit is left to another rule.
fn number_text(reader: &mut Reader) -> (r: ParseResult<String>)
    requires
        old(reader).wf(),
    ensures
        parsed(
            old(reader),
            final(reader),
            r,
            number_at(old(reader).source(), old(reader).state.cursor as int),
        ),
        r matches Ok(s) ==> {
            &&& final(reader).state.cursor > old(reader).state.cursor
            &&& s@ == old(reader).text(
                old(reader).state.cursor as int,
                final(reader).state.cursor as int,
            )
        },
{
    let start = reader.state;
    let negative = match reader.peek() {
        Some(c) => c == '-',
        None => false,
    };
    if negative {
        reader.read();
    }
    let digits_start = reader.state.cursor;
    let first_zero = match reader.peek() {
        Some(c) => c == '0',
        None => false,
    };
    proof {
        crate::parser::number::lemma_run_end(
            reader.buffer@,
            CharClass::Digit,
            reader.state.cursor as int,
        );
    }
    let _ = reader.read_while(CharClass::Digit);
    let digits = reader.state.cursor - digits_start;
    if digits == 0 {
        reader.restore(start);
        return Err(Error::new(start.pos, true, ParseError::Expecting { value: "number".to_string() }));
    }
    if first_zero && digits > 1 {
        return Err(Error::new(start.pos, false, ParseError::Expecting { value: "number".to_string() }));
    }
    let dotted = match reader.peek() {
        Some(c) => c == '.',
        None => false,
    };
    if dotted {
        reader.read();
        let before = reader.state;
        proof {
            crate::parser::number::lemma_run_end(
                reader.buffer@,
                CharClass::Digit,
                reader.state.cursor as int,
            );
        }
        let _ = reader.read_while(CharClass::Digit);
        if reader.state.cursor == before.cursor {
            return Err(
                Error::new(before.pos, false, ParseError::Expecting { value: "digits".to_string() }),
            );
        }
    }
    match exponent(reader) {
        Ok(_) => {},
        Err(e) => {
            return Err(e);
        },
    }
    Ok(reader.peek_back(start.cursor))
}

/// Whether the next character is `c`.
fn next_is(reader: &Reader, c: char) -> (r: bool)
    requires
        reader.wf(),
    ensures
        r == has_char(reader.source(), reader.state.cursor as int, c),
{
    match reader.peek() {
        Some(x) => x == c,
        None => false,
    }
}

/// Reads an element of a JSON list: a value, with blanks around it.
#[verifier::spinoff_prover]
#[verifier::rlimit(40)]
fn list_element(reader: &mut Reader) -> (r: ParseResult<JsonListElement>)
    requires
        old(reader).wf(),
    ensures
        parsed(
            old(reader),
            final(reader),
            r,
            element_at(old(reader).source(), old(reader).state.cursor as int),
        ),
        r matches Err(e) ==> !e.recoverable,
        r matches Ok(e) ==> {
            &&& final(reader).state.cursor > old(reader).state.cursor
            &&& e.space0@ + e.value.encoded_spec() + e.space1@ == old(reader).text(
                old(reader).state.cursor as int,
                final(reader).state.cursor as int,
            )
        },
    decreases old(reader).buffer@.len() - old(reader).state.cursor, 4nat,
{
    let save = reader.state.pos;
    proof {
        lemma_blanks_end(reader.buffer@, reader.state.cursor as int);
    }
    let space0 = whitespace(reader);
    let value = match parse(reader) {
        Ok(v) => v,
        Err(_) => {
            return Err(Error::new(save, false, ParseError::Json(JsonError::ExpectingElement)));
        },
    };
    proof {
        lemma_blanks_end(reader.buffer@, reader.state.cursor as int);
    }
    let space1 = whitespace(reader);
    assert(space0@ + value.encoded_spec() + space1@ =~= old(reader).text(
        old(reader).state.cursor as int,
        reader.state.cursor as int,
    ));
    Ok(JsonListElement { space0, value, space1 })
}

/// Reads the name of a member of a JSON object, with the blanks around it
/// and its colon.
#[verifier::spinoff_prover]
#[verifier::rlimit(40)]
fn member_name(reader: &mut Reader) -> (r: ParseResult<(String, Template, String)>)
    requires
        old(reader).wf(),
    ensures
        parsed(
            old(reader),
            final(reader),
            r,
            member_name_at(old(reader).source(), old(reader).state.cursor as int),
        ),
        r matches Err(e) ==> !e.recoverable,
        r matches Ok(n) ==> {
            &&& final(reader).state.cursor > old(reader).state.cursor
            &&& member_name_text(n.0@, n.1, n.2@) == old(reader).text(
                old(reader).state.cursor as int,
                final(reader).state.cursor as int,
            )
        },
{
    proof {
        reveal_strlit(":");
        lemma_blanks_end(reader.buffer@, reader.state.cursor as int);
    }
    let ghost from = reader.state.cursor as int;
    let space0 = whitespace(reader);
    let ghost a = reader.state.cursor as int;
    let name = match string_template(reader) {
        Ok(t) => t,
        Err(e) => {
            return Err(Error::new(e.pos, false, ParseError::Expecting { value: "\"".to_string() }));
        },
    };
    let ghost b = reader.state.cursor as int;
    proof {
        lemma_blanks_end(reader.buffer@, reader.state.cursor as int);
    }
    let space1 = whitespace(reader);
    let ghost c = reader.state.cursor as int;
    match literal(":", reader) {
        Ok(_) => {},
        Err(e) => {
            return Err(e);
        },
    }
    proof {
        assert(reader.text(a, a + 1) =~= seq!['"']) by {
            reveal_strlit("\"");
        }
        assert(reader.text(b - 1, b) =~= seq!['"']) by {
            reveal_strlit("\"");
        }
        assert(reader.text(c, c + 1) =~= seq![':']);
        assert(space0@ + seq!['"'] + crate::ast::elements_encoded(name.elements@)
            =~= reader.text(from, b - 1));
        assert(member_name_text(space0@, name, space1@) =~= reader.text(from, c + 1));
    }
    Ok((space0, name, space1))
}

/// Reads a member of a JSON object: a name, a colon and a value, with blanks
/// around them.
#[verifier::spinoff_prover]
#[verifier::rlimit(40)]
fn object_member(reader: &mut Reader) -> (r: ParseResult<JsonObjectElement>)
    requires
        old(reader).wf(),
    ensures
        parsed(
            old(reader),
            final(reader),
            r,
            member_at(old(reader).source(), old(reader).state.cursor as int),
        ),
        r matches Err(e) ==> !e.recoverable,
        r matches Ok(e) ==> {
            &&& final(reader).state.cursor > old(reader).state.cursor
            &&& member_head(e) + e.value.encoded_spec() + e.space3@ == old(reader).text(
                old(reader).state.cursor as int,
                final(reader).state.cursor as int,
            )
        },
    decreases old(reader).buffer@.len() - old(reader).state.cursor, 4nat,
{
    let ghost from = reader.state.cursor as int;
    let (space0, name, space1) = match member_name(reader) {
        Ok(n) => n,
        Err(e) => {
            return Err(e);
        },
    };
    let ghost b = reader.state.cursor as int;
    let before_value = reader.state.pos;
    proof {
        lemma_blanks_end(reader.buffer@, reader.state.cursor as int);
    }
    let space2 = whitespace(reader);
    let ghost v = reader.state.cursor as int;
    let value = match parse(reader) {
        Ok(v) => v,
        Err(_) => {
            return Err(
                Error::new(before_value, false, ParseError::Json(JsonError::ExpectingElement)),
            );
        },
    };
    let ghost c = reader.state.cursor as int;
    proof {
        lemma_blanks_end(reader.buffer@, reader.state.cursor as int);
    }
    let space3 = whitespace(reader);
    let member = JsonObjectElement { space0, name, space1, space2, value, space3 };
    proof {
        assert(member_head(member) =~= member_name_text(
            member.space0@,
            member.name,
            member.space1@,
        ) + member.space2@);
        assert(member_head(member) =~= reader.text(from, v));
        assert(member_head(member) + member.value.encoded_spec() =~= reader.text(from, c));
        assert(member_head(member) + member.value.encoded_spec() + member.space3@
            =~= reader.text(from, reader.state.cursor as int));
    }
    Ok(member)
}

/// Reads the elements of a JSON list and its closing bracket.
#[verifier::spinoff_prover]
#[verifier::rlimit(40)]
fn list_rest(reader: &mut Reader) -> (r: ParseResult<Vec<JsonListElement>>)
    requires
        old(reader).wf(),
    ensures
        parsed(
            old(reader),
            final(reader),
            r,
            list_at(old(reader).source(), old(reader).state.cursor as int),
        ),
        r matches Err(e) ==> !e.recoverable,
        r matches Ok(elements) ==> {
            &&& final(reader).state.cursor > old(reader).state.cursor
            &&& list_encoded(elements@, elements@.len()) + seq![']'] == old(reader).text(
                old(reader).state.cursor as int,
                final(reader).state.cursor as int,
            )
        },
    decreases old(reader).buffer@.len() - old(reader).state.cursor, 5nat,
{
    let mut elements: Vec<JsonListElement> = Vec::new();
    let ghost first = reader.state.cursor as int;
    let ghost mut read: Seq<char> = Seq::empty();
    loop
        invariant_except_break
            list_at(old(reader).source(), old(reader).state.cursor as int) == list_at(
                reader.source(),
                reader.state.cursor as int,
            ),
            read == (if elements@.len() == 0 {
                Seq::<char>::empty()
            } else {
                list_encoded(elements@, elements@.len()).push(',')
            }),
        invariant
            reader.follows(old(reader)),
            old(reader).wf(),
            first == old(reader).state.cursor,
            reader.state.cursor >= first,
            read == reader.text(first, reader.state.cursor as int),
        ensures
            reader.follows(old(reader)),
            reader.state.cursor > first,
            elements@.len() > 0,
            list_encoded(elements@, elements@.len()) == reader.text(
                first,
                reader.state.cursor as int,
            ),
            list_at(old(reader).source(), old(reader).state.cursor as int) == literal_at(
                reader.source(),
                reader.state.cursor as int,
                "]"@,
            ),
        decreases reader.buffer@.len() - reader.state.cursor,
    {
        let ghost before = reader.state.cursor as int;
        let ghost prior = elements@;
        let element = match list_element(reader) {
            Ok(e) => e,
            Err(e) => {
                return Err(e);
            },
        };
        elements.push(element);
        proof {
            assert(elements@.take(prior.len() as int) =~= prior.take(prior.len() as int));
            lemma_list_encoded_prefix(elements@, prior, prior.len());
            read = reader.text(first, reader.state.cursor as int);
            assert(list_encoded(elements@, elements@.len()) =~= reader.text(first, before)
                + reader.text(before, reader.state.cursor as int));
            assert(list_encoded(elements@, elements@.len()) =~= read);
        }
        if !next_is(reader, ',') {
            break ;
        }
        let comma = reader.state.pos;
        reader.read();
        proof {
            read = reader.text(first, reader.state.cursor as int);
            assert(read =~= list_encoded(elements@, elements@.len()).push(','));
        }
        if next_is(reader, ']') {
            return Err(Error::new(comma, false, ParseError::Json(JsonError::TrailingComma)));
        }
    }
    proof {
        reveal_strlit("]");
    }
    let ghost close = reader.state.cursor as int;
    match literal("]", reader) {
        Ok(_) => {
            proof {
                assert(reader.text(close, close + 1) =~= seq![']']);
                assert(list_encoded(elements@, elements@.len()) + seq![']'] =~= reader.text(
                    first,
                    reader.state.cursor as int,
                ));
            }
            Ok(elements)
        },
        Err(e) => Err(e),
    }
}

/// Reads the members of a JSON object and its closing brace.
#[verifier::spinoff_prover]
#[verifier::rlimit(40)]
fn object_rest(reader: &mut Reader) -> (r: ParseResult<Vec<JsonObjectElement>>)
    requires
        old(reader).wf(),
    ensures
        parsed(
            old(reader),
            final(reader),
            r,
            object_at(old(reader).source(), old(reader).state.cursor as int),
        ),
        r matches Err(e) ==> !e.recoverable,
        r matches Ok(elements) ==> {
            &&& final(reader).state.cursor > old(reader).state.cursor
            &&& object_encoded(elements@, elements@.len()) + seq!['}'] == old(reader).text(
                old(reader).state.cursor as int,
                final(reader).state.cursor as int,
            )
        },
    decreases old(reader).buffer@.len() - old(reader).state.cursor, 5nat,
{
    let mut elements: Vec<JsonObjectElement> = Vec::new();
    let ghost first = reader.state.cursor as int;
    let ghost mut read: Seq<char> = Seq::empty();
    loop
        invariant_except_break
            object_at(old(reader).source(), old(reader).state.cursor as int) == object_at(
                reader.source(),
                reader.state.cursor as int,
            ),
            read == (if elements@.len() == 0 {
                Seq::<char>::empty()
            } else {
                object_encoded(elements@, elements@.len()).push(',')
            }),
        invariant
            reader.follows(old(reader)),
            old(reader).wf(),
            first == old(reader).state.cursor,
            reader.state.cursor >= first,
            read == reader.text(first, reader.state.cursor as int),
        ensures
            reader.follows(old(reader)),
            reader.state.cursor > first,
            elements@.len() > 0,
            object_encoded(elements@, elements@.len()) == reader.text(
                first,
                reader.state.cursor as int,
            ),
            object_at(old(reader).source(), old(reader).state.cursor as int) == literal_at(
                reader.source(),
                reader.state.cursor as int,
                "}"@,
            ),
        decreases reader.buffer@.len() - reader.state.cursor,
    {
        let ghost before = reader.state.cursor as int;
        let ghost prior = elements@;
        let element = match object_member(reader) {
            Ok(e) => e,
            Err(e) => {
                return Err(e);
            },
        };
        elements.push(element);
        proof {
            assert(elements@.take(prior.len() as int) =~= prior.take(prior.len() as int));
            lemma_object_encoded_prefix(elements@, prior, prior.len());
            read = reader.text(first, reader.state.cursor as int);
            assert(object_encoded(elements@, elements@.len()) =~= reader.text(first, before)
                + reader.text(before, reader.state.cursor as int));
            assert(object_encoded(elements@, elements@.len()) =~= read);
        }
        if !next_is(reader, ',') {
            break ;
        }
        let comma = reader.state.pos;
        reader.read();
        proof {
            read = reader.text(first, reader.state.cursor as int);
            assert(read =~= object_encoded(elements@, elements@.len()).push(','));
        }
        if next_is(reader, '}') {
            return Err(Error::new(comma, false, ParseError::Json(JsonError::TrailingComma)));
        }
    }
    proof {
        reveal_strlit("}");
    }
    let ghost close = reader.state.cursor as int;
    match literal("}", reader) {
        Ok(_) => {
            proof {
                assert(reader.text(close, close + 1) =~= seq!['}']);
                assert(object_encoded(elements@, elements@.len()) + seq!['}'] =~= reader.text(
                    first,
                    reader.state.cursor as int,
                ));
            }
            Ok(elements)
        },
        Err(e) => Err(e),
    }
}

/// Reads a JSON list. Text that does not start with a bracket is left to
/// another rule.
#[verifier::spinoff_prover]
#[verifier::rlimit(40)]
fn list_value(reader: &mut Reader) -> (r: ParseResult<JsonValue>)
    requires
        old(reader).wf(),
    ensures
        parsed(
            old(reader),
            final(reader),
            r,
            list_value_at(old(reader).source(), old(reader).state.cursor as int),
        ),
        r matches Ok(v) ==> {
            &&& final(reader).state.cursor > old(reader).state.cursor
            &&& v.encoded_spec() == old(reader).text(
                old(reader).state.cursor as int,
                final(reader).state.cursor as int,
            )
        },
    decreases old(reader).buffer@.len() - old(reader).state.cursor, 2nat,
{
    let ghost from = reader.state.cursor as int;
    if !next_is(reader, '[') {
        return Err(
            Error::new(reader.state.pos, true, ParseError::Expecting { value: "[".to_string() }),
        );
    }
    reader.read();
    proof {
        lemma_blanks_end(reader.buffer@, reader.state.cursor as int);
    }
    let space0 = whitespace(reader);
    let ghost inner = reader.state.cursor as int;
    assert(reader.text(from, from + 1) =~= seq!['[']);
    if next_is(reader, ']') {
        reader.read();
        let v = JsonValue::List { space0, elements: Vec::new() };
        proof {
            assert(reader.text(inner, inner + 1) =~= seq![']']);
            assert(list_encoded(v->List_elements@, 0) =~= Seq::<char>::empty());
            lemma_list_text(
                v,
                reader.text(from, from + 1),
                reader.text(from + 1, inner),
                reader.text(inner, inner + 1),
            );
            assert(reader.text(from, from + 1) + reader.text(from + 1, inner) + reader.text(
                inner,
                inner + 1,
            ) =~= reader.text(from, reader.state.cursor as int));
        }
        return Ok(v);
    }
    match list_rest(reader) {
        Ok(elements) => {
            let v = JsonValue::List { space0, elements };
            proof {
                lemma_list_text(
                    v,
                    reader.text(from, from + 1),
                    reader.text(from + 1, inner),
                    reader.text(inner, reader.state.cursor as int),
                );
                assert(reader.text(from, from + 1) + reader.text(from + 1, inner) + reader.text(
                    inner,
                    reader.state.cursor as int,
                ) =~= reader.text(from, reader.state.cursor as int));
            }
            Ok(v)
        },
        Err(e) => Err(e),
    }
}

/// Reads a JSON object. Text that does not start with a brace is left to
/// another rule.
/// A JSON object is written as its opening brace, the blanks after it, and
/// its members with the closing brace.
proof fn lemma_object_text(v: JsonValue, open: Seq<char>, blanks: Seq<char>, rest: Seq<char>)
    requires
        v is Object,
        open == seq!['{'],
        blanks == v->Object_space0@,
        rest == object_encoded(v->Object_elements@, v->Object_elements@.len()) + seq!['}'],
    ensures
        v.encoded_spec() == open + blanks + rest,
{
    reveal(JsonValue::encoded_spec);
    assert(v.encoded_spec() =~= open + blanks + rest);
}

/// A JSON list is written as its opening bracket, the blanks after it, and
/// its elements with the closing bracket.
proof fn lemma_list_text(v: JsonValue, open: Seq<char>, blanks: Seq<char>, rest: Seq<char>)
    requires
        v is List,
        open == seq!['['],
        blanks == v->List_space0@,
        rest == list_encoded(v->List_elements@, v->List_elements@.len()) + seq![']'],
    ensures
        v.encoded_spec() == open + blanks + rest,
{
    reveal(JsonValue::encoded_spec);
    assert(v.encoded_spec() =~= open + blanks + rest);
}

/// What the values that hold no other value are written as.
proof fn lemma_leaf_text(v: JsonValue)
    ensures
        v is Null ==> v.encoded_spec() == seq!['n', 'u', 'l', 'l'],
        v matches JsonValue::Boolean(b) ==> v.encoded_spec() == (if b {
            seq!['t', 'r', 'u', 'e']
        } else {
            seq!['f', 'a', 'l', 's', 'e']
        }),
        v matches JsonValue::Number(n) ==> v.encoded_spec() == n@,
        v matches JsonValue::String(t) ==> v.encoded_spec() == seq!['"']
            + crate::ast::elements_encoded(t.elements@) + seq!['"'],
        v matches JsonValue::Expression(e) ==> v.encoded_spec() == e.encoded_spec(),
{
    reveal(JsonValue::encoded_spec);
}

#[verifier::spinoff_prover]
#[verifier::rlimit(40)]
fn object_value(reader: &mut Reader) -> (r: ParseResult<JsonValue>)
    requires
        old(reader).wf(),
    ensures
        parsed(
            old(reader),
            final(reader),
            r,
            object_value_at(old(reader).source(), old(reader).state.cursor as int),
        ),
        r matches Ok(v) ==> {
            &&& final(reader).state.cursor > old(reader).state.cursor
            &&& v.encoded_spec() == old(reader).text(
                old(reader).state.cursor as int,
                final(reader).state.cursor as int,
            )
        },
    decreases old(reader).buffer@.len() - old(reader).state.cursor, 2nat,
{
    let ghost from = reader.state.cursor as int;
    if !next_is(reader, '{') {
        return Err(
            Error::new(reader.state.pos, true, ParseError::Expecting { value: "json".to_string() }),
        );
    }
    reader.read();
    proof {
        lemma_blanks_end(reader.buffer@, reader.state.cursor as int);
    }
    let space0 = whitespace(reader);
    let ghost inner = reader.state.cursor as int;
    assert(reader.text(from, from + 1) =~= seq!['{']);
    if next_is(reader, '}') {
        reader.read();
        let v = JsonValue::Object { space0, elements: Vec::new() };
        proof {
            assert(reader.text(inner, inner + 1) =~= seq!['}']);
            assert(object_encoded(v->Object_elements@, 0) =~= Seq::<char>::empty());
            lemma_object_text(
                v,
                reader.text(from, from + 1),
                reader.text(from + 1, inner),
                reader.text(inner, inner + 1),
            );
            assert(reader.text(from, from + 1) + reader.text(from + 1, inner) + reader.text(
                inner,
                inner + 1,
            ) =~= reader.text(from, reader.state.cursor as int));
        }
        return Ok(v);
    }
    match object_rest(reader) {
        Ok(elements) => {
            let ghost mid = reader.state.cursor as int;
            let v = JsonValue::Object { space0, elements };
            proof {
                lemma_object_text(v, reader.text(from, from + 1), reader.text(from + 1, inner),
                    reader.text(inner, reader.state.cursor as int));
                assert(reader.text(from, from + 1) + reader.text(from + 1, inner) + reader.text(
                    inner,
                    reader.state.cursor as int,
                ) =~= reader.text(from, reader.state.cursor as int));
            }
            Ok(v)
        },
        Err(e) => Err(e),
    }
}

/// Reads `null`, `true` or `false`. Any other text is left to another rule.
fn keyword(reader: &mut Reader) -> (r: ParseResult<JsonValue>)
    requires
        old(reader).wf(),
    ensures
        parsed(
            old(reader),
            final(reader),
            r,
            or_else(
                null_at(old(reader).source(), old(reader).state.cursor as int),
                boolean_at(old(reader).source(), old(reader).state.cursor as int),
            ),
        ),
        r matches Err(e) ==> e.recoverable,
        r matches Ok(v) ==> {
            &&& final(reader).state.cursor > old(reader).state.cursor
            &&& v.encoded_spec() == old(reader).text(
                old(reader).state.cursor as int,
                final(reader).state.cursor as int,
            )
        },
{
    let ghost from = reader.state.cursor as int;
    proof {
        reveal_strlit("null");
        reveal_strlit("true");
        reveal_strlit("false");
    }
    if null(reader).is_ok() {
        proof {
            assert(reader.text(from, from + 4) == "null"@);
            assert("null"@ =~= seq!['n', 'u', 'l', 'l']);
            lemma_leaf_text(JsonValue::Null);
        }
        return Ok(JsonValue::Null);
    }
    match boolean(reader) {
        Ok(b) => {
            proof {
                if b {
                    assert(reader.text(from, from + 4) == "true"@);
                    assert("true"@ =~= seq!['t', 'r', 'u', 'e']);
                } else {
                    assert(reader.text(from, from + 5) == "false"@);
                    assert("false"@ =~= seq!['f', 'a', 'l', 's', 'e']);
                }
                lemma_leaf_text(JsonValue::Boolean(b));
            }
            Ok(JsonValue::Boolean(b))
        },
        Err(e) => Err(e),
    }
}

/// Reads a JSON string as a value. Text that does not start with a double
/// quote is left to another rule.
fn string_value(reader: &mut Reader) -> (r: ParseResult<JsonValue>)
    requires
        old(reader).wf(),
    ensures
        parsed(
            old(reader),
            final(reader),
            r,
            string_at(old(reader).source(), old(reader).state.cursor as int),
        ),
        r matches Ok(v) ==> {
            &&& final(reader).state.cursor > old(reader).state.cursor
            &&& v.encoded_spec() == old(reader).text(
                old(reader).state.cursor as int,
                final(reader).state.cursor as int,
            )
        },
{
    let ghost from = reader.state.cursor as int;
    proof {
        reveal_strlit("\"");
    }
    match string_template(reader) {
        Ok(t) => {
            proof {
                let to = reader.state.cursor as int;
                assert(reader.text(from, from + 1) =~= seq!['"']);
                assert(reader.text(to - 1, to) =~= seq!['"']);
                lemma_leaf_text(JsonValue::String(t));
                assert(JsonValue::String(t).encoded_spec() =~= reader.text(from, to));
            }
            Ok(JsonValue::String(t))
        },
        Err(e) => Err(e),
    }
}

/// Reads a JSON value: `null`, a boolean, a string, a number, a variable
/// reference, a list or an object, tried in this order. Text that starts
/// none of these is left to another rule.
#[verifier::spinoff_prover]
pub fn parse(reader: &mut Reader) -> (r: ParseResult<JsonValue>)
    requires
        old(reader).wf(),
    ensures
        parsed(
            old(reader),
            final(reader),
            r,
            json_at(old(reader).source(), old(reader).state.cursor as int),
        ),
        r matches Ok(v) ==> {
            &&& final(reader).state.cursor > old(reader).state.cursor
            &&& v.encoded_spec() == old(reader).text(
                old(reader).state.cursor as int,
                final(reader).state.cursor as int,
            )
        },
    decreases old(reader).buffer@.len() - old(reader).state.cursor, 3nat,
{
    match keyword(reader) {
        Ok(v) => {
            return Ok(v);
        },
        Err(_) => {},
    }
    match string_value(reader) {
        Ok(v) => {
            return Ok(v);
        },
        Err(e) => {
            if !e.recoverable {
                return Err(e);
            }
        },
    }
    match number_text(reader) {
        Ok(n) => {
            proof {
                lemma_leaf_text(JsonValue::Number(n));
            }
            return Ok(JsonValue::Number(n));
        },
        Err(e) => {
            if !e.recoverable {
                return Err(e);
            }
        },
    }
    match expr::parse(reader) {
        Ok(e) => {
            proof {
                lemma_leaf_text(JsonValue::Expression(e));
            }
            return Ok(JsonValue::Expression(e));
        },
        Err(e) => {
            if !e.recoverable {
                return Err(e);
            }
        },
    }
    match list_value(reader) {
        Ok(v) => {
            return Ok(v);
        },
        Err(e) => {
            if !e.recoverable {
                return Err(e);
            }
        },
    }
    object_value(reader)
}

} // verus!
