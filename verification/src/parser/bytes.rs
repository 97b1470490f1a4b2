//! Values and bodies that are not plain strings: hexadecimal and base64
//! data, files, and strings over several lines.

use vstd::prelude::*;

use crate::ast::{
    first_reference, Base64, File, Filename, Hex, MultilineString, SourceInfo, Template,
    Whitespace,
};
use crate::parser::error::{Error, ParseError, ParseErrorView};
use crate::parser::primitives::{
    fail, literal, literal_at, newline, newline_len, parsed, spaces_end, try_literal,
    try_literal_at, zero_or_more_spaces, Outcome, ParseResult,
};
use crate::parser::reader::{alphanumeric, is_alphanumeric, run_end, CharClass, Reader, Source};
use crate::parser::string::{
    any_char, any_char_at, encodings, first_in, flat, hex_digit, hex_run_end, templatize,
    EncodedChar,
};
use crate::text::string_of;

verus! {

/// The rule of `hex`: `hex,`, spaces, an even number of hexadecimal digits,
/// spaces, and `;`.
pub open spec fn hex_at(src: Source, i: int) -> Outcome {
    match try_literal_at(src, i, "hex"@) {
        Outcome::Done(a) => match literal_at(src, a, ","@) {
            Outcome::Done(b) => {
                let c = spaces_end(src.text, b);
                let d = hex_run_end(src.text, c);
                if (d - c) % 2 != 0 {
                    fail(src.pos(d), false, ParseErrorView::OddNumberOfHexDigits)
                } else {
                    literal_at(src, spaces_end(src.text, d), ";"@)
                }
            },
            Outcome::Failed(e) => Outcome::Failed(e),
        },
        Outcome::Failed(e) => Outcome::Failed(e),
    }
}

/// Reads hexadecimal data: `hex,`, an even number of digits, and `;`. Text
/// that does not start with `hex` is left to another rule.
pub fn hex(reader: &mut Reader) -> (r: ParseResult<Hex>)
    requires
        old(reader).wf(),
    ensures
        parsed(
            old(reader),
            final(reader),
            r,
            hex_at(old(reader).source(), old(reader).state.cursor as int),
        ),
        r is Ok ==> final(reader).state.cursor > old(reader).state.cursor,
{
    proof {
        reveal_strlit("hex");
    }
    match try_literal("hex", reader) {
        Ok(_) => {},
        Err(e) => {
            return Err(e);
        },
    }
    match literal(",", reader) {
        Ok(_) => {},
        Err(e) => {
            return Err(e);
        },
    }
    let space0 = match zero_or_more_spaces(reader) {
        Ok(w) => w,
        Err(e) => {
            return Err(e.fatal());
        },
    };
    let mut value: Vec<u8> = Vec::new();
    let start = reader.state.cursor;
    let mut current: Option<u32> = None;
    loop
        invariant
            reader.follows(old(reader)),
            old(reader).wf(),
            reader.state.cursor > old(reader).state.cursor,
            start <= reader.state.cursor,
            current matches Some(d) ==> d < 16,
            current is Some <==> (reader.state.cursor - start) % 2 != 0,
            hex_run_end(reader.buffer@, start as int) == hex_run_end(
                reader.buffer@,
                reader.state.cursor as int,
            ),
        ensures
            hex_run_end(reader.buffer@, reader.state.cursor as int) == reader.state.cursor,
        decreases reader.buffer@.len() - reader.state.cursor,
    {
        match hex_digit(reader) {
            Ok(d) => {
                match current {
                    Some(high) => {
                        value.push((high * 16 + d) as u8);
                        current = None;
                    },
                    None => {
                        current = Some(d);
                    },
                }
            },
            Err(_) => {
                break ;
            },
        }
    }
    if current.is_some() {
        return Err(Error::new(reader.state.pos, false, ParseError::OddNumberOfHexDigits));
    }
    let encoded = reader.peek_back(start);
    let space1 = match zero_or_more_spaces(reader) {
        Ok(w) => w,
        Err(e) => {
            return Err(e.fatal());
        },
    };
    match literal(";", reader) {
        Ok(_) => {},
        Err(e) => {
            return Err(e);
        },
    }
    Ok(Hex { space0, value, encoded, space1 })
}

/// Whether the character is one of base64 data.
pub open spec fn is_base64_char(c: char) -> bool {
    ('a' <= c && c <= 'z') || ('A' <= c && c <= 'Z') || ('0' <= c && c <= '9') || c == '+' || c
        == '/' || c == '='
}

/// Whether the character is a blank that base64 data may be broken by.
pub open spec fn is_base64_blank(c: char) -> bool {
    c == ' ' || c == '\n' || c == '\t'
}

/// Where the base64 data that runs from index `i` on ends: after its last
/// character that is no blank. `end` is where the last such character read
/// so far ends.
pub open spec fn base64_end(text: Seq<char>, i: int, end: int) -> int
    decreases text.len() - i,
{
    if 0 <= i < text.len() && is_base64_char(text[i]) {
        base64_end(text, i + 1, i + 1)
    } else if 0 <= i < text.len() && is_base64_blank(text[i]) {
        base64_end(text, i + 1, end)
    } else {
        end
    }
}

/// The rule of `base64`: `base64,`, spaces, the data, spaces, and `;`.
pub open spec fn base64_at(src: Source, i: int) -> Outcome {
    match try_literal_at(src, i, "base64"@) {
        Outcome::Done(a) => match literal_at(src, a, ","@) {
            Outcome::Done(b) => {
                let c = spaces_end(src.text, b);
                literal_at(src, spaces_end(src.text, base64_end(src.text, c, c)), ";"@)
            },
            Outcome::Failed(e) => Outcome::Failed(e),
        },
        Outcome::Failed(e) => Outcome::Failed(e),
    }
}

/// Reads base64 data: `base64,`, the data, and `;`. Text that does not
/// start with `base64` is left to another rule.
pub fn base64(reader: &mut Reader) -> (r: ParseResult<Base64>)
    requires
        old(reader).wf(),
    ensures
        parsed(
            old(reader),
            final(reader),
            r,
            base64_at(old(reader).source(), old(reader).state.cursor as int),
        ),
        r is Ok ==> final(reader).state.cursor > old(reader).state.cursor,
{
    proof {
        reveal_strlit("base64");
    }
    match try_literal("base64", reader) {
        Ok(_) => {},
        Err(e) => {
            return Err(e);
        },
    }
    match literal(",", reader) {
        Ok(_) => {},
        Err(e) => {
            return Err(e);
        },
    }
    let space0 = match zero_or_more_spaces(reader) {
        Ok(w) => w,
        Err(e) => {
            return Err(e.fatal());
        },
    };
    let start = reader.state.cursor;
    let mut end = reader.state;
    loop
        invariant
            reader.follows(old(reader)),
            old(reader).wf(),
            reader.state.cursor > old(reader).state.cursor,
            old(reader).state.cursor < start <= end.cursor <= reader.state.cursor,
            end.pos == reader.pos_of(end.cursor as int),
            base64_end(reader.buffer@, start as int, start as int) == base64_end(
                reader.buffer@,
                reader.state.cursor as int,
                end.cursor as int,
            ),
        ensures
            base64_end(reader.buffer@, reader.state.cursor as int, end.cursor as int)
                == end.cursor,
        decreases reader.buffer@.len() - reader.state.cursor,
    {
        match reader.peek() {
            Some(c) => {
                let data = ('a' <= c && c <= 'z') || ('A' <= c && c <= 'Z') || ('0' <= c && c
                    <= '9') || c == '+' || c == '/' || c == '=';
                if data {
                    reader.read();
                    end = reader.state;
                } else if c == ' ' || c == '\n' || c == '\t' {
                    reader.read();
                } else {
                    break ;
                }
            },
            None => {
                break ;
            },
        }
    }
    reader.restore(end);
    let encoded = reader.peek_back(start);
    let space1 = match zero_or_more_spaces(reader) {
        Ok(w) => w,
        Err(e) => {
            return Err(e.fatal());
        },
    };
    match literal(";", reader) {
        Ok(_) => {},
        Err(e) => {
            return Err(e);
        },
    }
    Ok(Base64 { space0, encoded, space1 })
}

/// Whether the name of a file may hold the character.
pub open spec fn is_filename_char(c: char) -> bool {
    is_alphanumeric(c) || c == '.' || c == '/' || c == '_' || c == '-' || c == '~' || c == '\\'
}

/// Whether the name of a file may hold the character.
fn filename_char(c: char) -> (r: bool)
    ensures
        r == is_filename_char(c),
{
    alphanumeric(c) || c == '.' || c == '/' || c == '_' || c == '-' || c == '~' || c == '\\'
}

/// The first index at or after `i` whose character the name of a file
/// cannot hold.
pub open spec fn filename_end(text: Seq<char>, i: int) -> int
    decreases text.len() - i,
{
    if 0 <= i < text.len() && is_filename_char(text[i]) {
        filename_end(text, i + 1)
    } else {
        i
    }
}

/// The rule of `filename`: one or more characters of a file name.
pub open spec fn filename_at(src: Source, i: int) -> Outcome {
    if filename_end(src.text, i) > i {
        Outcome::Done(filename_end(src.text, i))
    } else {
        fail(src.pos(i), false, ParseErrorView::Filename)
    }
}

/// The rule of `file`: `file,`, spaces, the name of a file, spaces, and `;`.
pub open spec fn file_at(src: Source, i: int) -> Outcome {
    match try_literal_at(src, i, "file"@) {
        Outcome::Done(a) => match literal_at(src, a, ","@) {
            Outcome::Done(b) => match filename_at(src, spaces_end(src.text, b)) {
                Outcome::Done(c) => literal_at(src, spaces_end(src.text, c), ";"@),
                Outcome::Failed(e) => Outcome::Failed(e),
            },
            Outcome::Failed(e) => Outcome::Failed(e),
        },
        Outcome::Failed(e) => Outcome::Failed(e),
    }
}

/// Reads the name of a file.
fn filename(reader: &mut Reader) -> (r: ParseResult<Filename>)
    requires
        old(reader).wf(),
    ensures
        parsed(
            old(reader),
            final(reader),
            r,
            filename_at(old(reader).source(), old(reader).state.cursor as int),
        ),
{
    let start = reader.state;
    loop
        invariant
            reader.follows(old(reader)),
            old(reader).wf(),
            start == old(reader).state,
            filename_end(reader.buffer@, start.cursor as int) == filename_end(
                reader.buffer@,
                reader.state.cursor as int,
            ),
        ensures
            filename_end(reader.buffer@, reader.state.cursor as int) == reader.state.cursor,
        decreases reader.buffer@.len() - reader.state.cursor,
    {
        match reader.peek() {
            Some(c) => {
                if filename_char(c) {
                    reader.read();
                } else {
                    break ;
                }
            },
            None => {
                break ;
            },
        }
    }
    if reader.state.cursor == start.cursor {
        return Err(Error::new(start.pos, false, ParseError::Filename));
    }
    Ok(
        Filename {
            value: reader.peek_back(start.cursor),
            source_info: SourceInfo::new(start.pos, reader.state.pos),
        },
    )
}

/// Reads a reference to a file: `file,`, its name, and `;`. Text that does
/// not start with `file` is left to another rule.
pub fn file(reader: &mut Reader) -> (r: ParseResult<File>)
    requires
        old(reader).wf(),
    ensures
        parsed(
            old(reader),
            final(reader),
            r,
            file_at(old(reader).source(), old(reader).state.cursor as int),
        ),
        r is Ok ==> final(reader).state.cursor > old(reader).state.cursor,
{
    proof {
        reveal_strlit("file");
    }
    match try_literal("file", reader) {
        Ok(_) => {},
        Err(e) => {
            return Err(e);
        },
    }
    match literal(",", reader) {
        Ok(_) => {},
        Err(e) => {
            return Err(e);
        },
    }
    let space0 = match zero_or_more_spaces(reader) {
        Ok(w) => w,
        Err(e) => {
            return Err(e.fatal());
        },
    };
    let filename = match filename(reader) {
        Ok(f) => f,
        Err(e) => {
            return Err(e);
        },
    };
    let space1 = match zero_or_more_spaces(reader) {
        Ok(w) => w,
        Err(e) => {
            return Err(e.fatal());
        },
    };
    match literal(";", reader) {
        Ok(_) => {},
        Err(e) => {
            return Err(e);
        },
    }
    Ok(File { space0, filename, space1 })
}

/// Whether a fence of three backticks starts at index `i`.
pub open spec fn is_fence(text: Seq<char>, i: int) -> bool {
    0 <= i && i + 3 <= text.len() && text[i] == '`' && text[i + 1] == '`' && text[i + 2] == '`'
}

/// Whether the closing fence of a multiline string starts at the cursor.
fn at_fence(reader: &Reader) -> (r: bool)
    requires
        reader.wf(),
    ensures
        r == is_fence(reader.buffer@, reader.state.cursor as int),
{
    let i = reader.state.cursor;
    let n = reader.buffer.len();
    n >= 3 && i <= n - 3 && reader.buffer[i] == '`' && reader.buffer[i + 1] == '`'
        && reader.buffer[i + 2] == '`'
}

/// The rule of the text of a multiline string: escapes and any other
/// characters, up to a fence.
pub open spec fn fenced_at(src: Source, i: int) -> Outcome
    decreases src.len() - i,
{
    if is_fence(src.text, i) {
        Outcome::Done(i + 3)
    } else {
        match any_char_at(src, i, '\\') {
            Outcome::Done(j) => if i < j <= src.len() {
                fenced_at(src, j)
            } else {
                Outcome::Done(i)
            },
            Outcome::Failed(e) => if !e.recoverable {
                Outcome::Failed(e)
            } else if 0 <= i < src.len() {
                fenced_at(src, i + 1)
            } else {
                fail(src.pos(i), false, ParseErrorView::Multiline)
            },
        }
    }
}

/// The characters of the text of a multiline string from index `i` on, up
/// to the fence, as they are written.
pub open spec fn fenced_chars(src: Source, i: int) -> Seq<Seq<char>>
    decreases src.len() - i,
{
    if is_fence(src.text, i) {
        Seq::empty()
    } else {
        match any_char_at(src, i, '\\') {
            Outcome::Done(j) => if i < j <= src.len() {
                seq![src.text.subrange(i, j)] + fenced_chars(src, j)
            } else {
                Seq::empty()
            },
            Outcome::Failed(e) => if e.recoverable && 0 <= i < src.len() {
                seq![src.text.subrange(i, i + 1)] + fenced_chars(src, i + 1)
            } else {
                Seq::empty()
            },
        }
    }
}

/// Where the text of the multiline string whose opening fence ends at `a`
/// starts: on the next line when only letters and spaces follow the fence
/// on its line, else after the spaces that follow the fence.
pub open spec fn multiline_start(src: Source, a: int) -> int {
    let s = spaces_end(src.text, run_end(src.text, CharClass::AsciiLetter, a));
    if newline_len(src.text, s) > 0 {
        s + newline_len(src.text, s)
    } else {
        spaces_end(src.text, a)
    }
}

/// The rule of `multiline_string`: a fence, the text, a fence.
pub open spec fn multiline_string_at(src: Source, i: int) -> Outcome {
    match try_literal_at(src, i, "```"@) {
        Outcome::Done(a) => fenced_at(src, multiline_start(src, a)),
        Outcome::Failed(e) => Outcome::Failed(e),
    }
}

/// Reads a string between two fences of three backticks. What follows the
/// opening fence on its line names the kind of text. Text that does not
/// start with a fence is left to another rule.
pub fn multiline_string(reader: &mut Reader) -> (r: ParseResult<MultilineString>)
    requires
        old(reader).wf(),
    ensures
        parsed(
            old(reader),
            final(reader),
            r,
            multiline_string_at(old(reader).source(), old(reader).state.cursor as int),
        ),
        r matches Ok(m) ==> {
            let start = multiline_start(old(reader).source(), old(reader).state.cursor + 3);
            &&& final(reader).state.cursor > old(reader).state.cursor
            &&& m.value.delimiter is None
            &&& m.value.encoded_spec() == old(reader).text(start, final(reader).state.cursor - 3)
            &&& first_reference(m.value.elements@) == first_in(
                fenced_chars(old(reader).source(), start),
            )
        },
{
    proof {
        reveal_strlit("```");
    }
    match try_literal("```", reader) {
        Ok(_) => {},
        Err(e) => {
            return Err(e);
        },
    }
    let after_fence = reader.state;
    let mut language = reader.read_while(CharClass::AsciiLetter);
    let mut space = match zero_or_more_spaces(reader) {
        Ok(w) => w,
        Err(e) => {
            return Err(e.fatal());
        },
    };
    let line_end = match newline(reader) {
        Ok(w) => w,
        Err(_) => {
            // The text starts on the line of the opening fence.
            reader.restore(after_fence);
            language = String::new();
            space = match zero_or_more_spaces(reader) {
                Ok(w) => w,
                Err(e) => {
                    return Err(e.fatal());
                },
            };
            Whitespace {
                value: String::new(),
                source_info: SourceInfo::new(reader.state.pos, reader.state.pos),
            }
        },
    };
    let start = reader.state;
    let mut chars: Vec<EncodedChar> = Vec::new();
    proof {
        assert(start.cursor == multiline_start(
            old(reader).source(),
            old(reader).state.cursor + 3,
        ));
        assert(flat(chars@) =~= reader.text(start.cursor as int, start.cursor as int));
        assert(encodings(chars@) + fenced_chars(reader.source(), start.cursor as int)
            =~= fenced_chars(reader.source(), start.cursor as int));
    }
    loop
        invariant
            reader.follows(old(reader)),
            old(reader).wf(),
            reader.state.cursor > old(reader).state.cursor,
            reader.state.cursor >= start.cursor,
            start.cursor == multiline_start(old(reader).source(), old(reader).state.cursor + 3),
            flat(chars@) == reader.text(start.cursor as int, reader.state.cursor as int),
            encodings(chars@) + fenced_chars(reader.source(), reader.state.cursor as int)
                == fenced_chars(reader.source(), start.cursor as int),
            multiline_string_at(old(reader).source(), old(reader).state.cursor as int)
                == fenced_at(reader.source(), start.cursor as int),
            fenced_at(reader.source(), start.cursor as int) == fenced_at(
                reader.source(),
                reader.state.cursor as int,
            ),
        ensures
            reader.follows(old(reader)),
            reader.state.cursor > old(reader).state.cursor,
            is_fence(reader.buffer@, reader.state.cursor as int),
            fenced_at(reader.source(), start.cursor as int) == Outcome::Done(
                reader.state.cursor + 3,
            ),
            reader.state.cursor >= start.cursor,
            flat(chars@) == reader.text(start.cursor as int, reader.state.cursor as int),
            encodings(chars@) == fenced_chars(reader.source(), start.cursor as int),
        decreases reader.buffer@.len() - reader.state.cursor,
    {
        let ghost at = reader.state.cursor as int;
        let ghost rest = fenced_chars(reader.source(), at);
        let ghost prior = chars@;
        if at_fence(reader) {
            assert(encodings(chars@) + rest =~= encodings(chars@));
            break ;
        }
        match any_char('\\', reader) {
            Ok(c) => {
                chars.push(c);
                proof {
                    assert(chars@.drop_last() =~= prior);
                    assert(flat(chars@) =~= reader.text(
                        start.cursor as int,
                        reader.state.cursor as int,
                    ));
                    assert(encodings(chars@) =~= encodings(prior).push(c.encoded@));
                    assert(encodings(chars@) + fenced_chars(
                        reader.source(),
                        reader.state.cursor as int,
                    ) =~= encodings(prior) + rest);
                }
            },
            Err(e) => {
                if !e.recoverable {
                    return Err(e);
                }
                let pos = reader.state.pos;
                match reader.read() {
                    Some(c) => {
                        let mut one: Vec<char> = Vec::new();
                        one.push(c);
                        assert(one@ =~= reader.text(at, at + 1));
                        let plain = EncodedChar { value: c, encoded: string_of(&one), pos };
                        chars.push(plain);
                        proof {
                            assert(chars@.drop_last() =~= prior);
                            assert(flat(chars@) =~= reader.text(
                                start.cursor as int,
                                reader.state.cursor as int,
                            ));
                            assert(encodings(chars@) =~= encodings(prior).push(plain.encoded@));
                            assert(encodings(chars@) + fenced_chars(
                                reader.source(),
                                reader.state.cursor as int,
                            ) =~= encodings(prior) + rest);
                        }
                    },
                    None => {
                        return Err(Error::new(pos, false, ParseError::Multiline));
                    },
                }
            },
        }
    }
    let end = reader.state;
    reader.read();
    reader.read();
    reader.read();
    let elements = templatize(chars);
    let value = Template {
        delimiter: None,
        elements,
        source_info: SourceInfo::new(start.pos, end.pos),
    };
    assert(value.encoded_spec() =~= crate::ast::elements_encoded(value.elements@));
    Ok(MultilineString { language, space, newline: line_end, value })
}

} // verus!
