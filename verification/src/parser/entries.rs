//! The entries of a mock file: a request pattern and the response to it.

use vstd::prelude::*;

use crate::ast::{
    Body, Bytes, Entry, Header, ImpostorFile, Method, Request, Response, SourceInfo, Status,
    Template, TemplateElement, Version, VersionValue,
};
use crate::decimal::{digit_values, nat_of};
use crate::entry::source::{
    body_source, entry_source, entry_sources, header_source, header_sources, request_source,
    response_source, BodySource, EntrySource, HeaderSource, RequestSource, ResponseSource,
    TemplateSource,
};
use crate::parser::bytes::{
    base64, base64_at, fenced_chars, file, file_at, hex, hex_at, multiline_start,
    multiline_string, multiline_string_at,
};
use crate::parser::error::{Error, ParseError, ParseErrorView};
use crate::parser::json;
use crate::parser::key_string;
use crate::parser::number::{natural, natural_at};
use crate::parser::predicate_value::or_else;
use crate::parser::primitives::{
    eof, eof_at, expecting, fail, line_terminator, line_terminator_at,
    line_terminators_end, literal, literal_at, one_or_more_spaces, one_or_more_spaces_at,
    optional_line_terminators, parsed, spaces_end, try_literal, try_literal_at,
    zero_or_more_spaces, Outcome, ParseResult,
};
use crate::parser::reader::{run_end, CharClass, Reader, Source};
use crate::parser::sections::{
    request_sections, request_sections_at, section_sources_at, section_start,
};
use crate::parser::string::{
    backtick_template, collected, delimited_template_at, first_in, kept, unquoted_template,
    unquoted_template_at,
};
use crate::parser::xml;
use crate::text::chars_of;

verus! {

/// Whether every character is an upper-case ASCII letter.
pub open spec fn is_upper(s: Seq<char>) -> bool {
    forall|i: int| 0 <= i < s.len() ==> 'A' <= #[trigger] s[i] && s[i] <= 'Z'
}

/// The rule of `method`: one or more upper-case ASCII letters.
pub open spec fn method_at(src: Source, i: int) -> Outcome {
    let n = run_end(src.text, CharClass::AsciiLetter, i);
    if i >= src.len() {
        fail(src.pos(i), true, ParseErrorView::Method { name: "<EOF>"@ })
    } else if n <= i || !is_upper(src.text.subrange(i, n)) {
        fail(src.pos(i), false, ParseErrorView::Method { name: src.text.subrange(i, n) })
    } else {
        Outcome::Done(n)
    }
}

/// Whether a path may hold the character.
pub open spec fn is_path_char(c: char) -> bool {
    c != ' ' && c != '\t' && c != '\n' && c != '\r' && c != '#'
}

/// The first index at or after `i` whose character a path cannot hold.
pub open spec fn path_end(text: Seq<char>, i: int) -> int
    decreases text.len() - i,
{
    if 0 <= i < text.len() && is_path_char(text[i]) {
        path_end(text, i + 1)
    } else {
        i
    }
}

/// The rule of `path`: a slash and what follows it up to a blank or a
/// comment.
pub open spec fn path_at(src: Source, i: int) -> Outcome {
    if 0 <= i < src.len() && src.text[i] == '/' {
        Outcome::Done(path_end(src.text, i + 1))
    } else {
        fail(src.pos(i), false, expecting("/"@))
    }
}

/// Where the number of the version that follows `HTTP` ends.
pub open spec fn version_end(src: Source, a: int) -> int {
    if try_literal_at(src, a, "/1.0"@) is Done {
        a + "/1.0"@.len()
    } else if try_literal_at(src, a, "/1.1"@) is Done {
        a + "/1.1"@.len()
    } else if try_literal_at(src, a, "/2"@) is Done {
        a + "/2"@.len()
    } else if try_literal_at(src, a, "/3"@) is Done {
        a + "/3"@.len()
    } else {
        a
    }
}

/// The version that the text after `HTTP` names.
pub open spec fn version_value_at(src: Source, a: int) -> VersionValue {
    if try_literal_at(src, a, "/1.0"@) is Done {
        VersionValue::Version1
    } else if try_literal_at(src, a, "/1.1"@) is Done {
        VersionValue::Version11
    } else if try_literal_at(src, a, "/2"@) is Done {
        VersionValue::Version2
    } else if try_literal_at(src, a, "/3"@) is Done {
        VersionValue::Version3
    } else {
        VersionValue::VersionAny
    }
}

/// The rule of `version`: `HTTP`, alone or followed by the number of a
/// version.
pub open spec fn version_at(src: Source, i: int) -> Outcome {
    match try_literal_at(src, i, "HTTP"@) {
        Outcome::Done(a) => Outcome::Done(version_end(src, a)),
        Outcome::Failed(e) => Outcome::Failed(e),
    }
}

/// The rule of `status`: a natural number of 16 bits.
pub open spec fn status_at(src: Source, i: int) -> Outcome {
    match natural_at(src, i) {
        Outcome::Done(j) => if nat_of(digit_values(src.text.subrange(i, j))) > u16::MAX {
            fail(src.pos(i), false, ParseErrorView::Status)
        } else {
            Outcome::Done(j)
        },
        Outcome::Failed(_) => fail(src.pos(i), false, ParseErrorView::Status),
    }
}

/// The rule of `key_value`: a key, a colon, a value, and the end of the
/// line. A line that starts with no key and colon is left to another rule.
#[verifier::opaque]
pub open spec fn key_value_at(src: Source, i: int) -> Outcome {
    match key_string::parse_at(src, section_start(src.text, i)) {
        Outcome::Done(a) => match literal_at(src, spaces_end(src.text, a), ":"@) {
            Outcome::Done(b) => match unquoted_template_at(src, spaces_end(src.text, b)) {
                Outcome::Done(c) => line_terminator_at(src, c),
                Outcome::Failed(e) => Outcome::Failed(e),
            },
            Outcome::Failed(e) => Outcome::Failed(e.recoverable()),
        },
        Outcome::Failed(e) => Outcome::Failed(e.recoverable()),
    }
}

/// The rule of `headers`: header lines, as many as there are.
pub open spec fn headers_at(src: Source, i: int) -> Outcome
    decreases src.len() - i,
{
    if i >= src.len() {
        Outcome::Done(i)
    } else {
        match key_value_at(src, i) {
            Outcome::Done(j) => if i < j <= src.len() {
                headers_at(src, j)
            } else {
                Outcome::Done(i)
            },
            Outcome::Failed(e) => if e.recoverable {
                Outcome::Done(i)
            } else {
                Outcome::Failed(e)
            },
        }
    }
}

/// Where the value of the header line that stands at or after `i` starts:
/// after its key, the colon and the spaces around it.
pub open spec fn value_start(src: Source, i: int) -> int {
    spaces_end(
        src.text,
        spaces_end(src.text, key_string::parse_at(src, section_start(src.text, i))->Done_0) + 1,
    )
}

/// What the header line that stands at or after `i` says.
#[verifier::opaque]
pub open spec fn header_source_at(src: Source, i: int) -> HeaderSource {
    HeaderSource {
        name: src.text.subrange(
            section_start(src.text, i),
            key_string::parse_at(src, section_start(src.text, i))->Done_0,
        ),
        value: TemplateSource {
            written: src.text.subrange(
                value_start(src, i),
                unquoted_template_at(src, value_start(src, i))->Done_0,
            ),
            text: src.text.subrange(
                value_start(src, i),
                unquoted_template_at(src, value_start(src, i))->Done_0,
            ),
            reference: first_in(kept(src, value_start(src, i), Seq::empty())),
        },
    }
}

/// What the header lines from index `i` on say, one by one.
#[verifier::opaque]
pub open spec fn header_sources_at(src: Source, i: int) -> Seq<HeaderSource>
    decreases src.len() - i,
{
    if i >= src.len() {
        Seq::empty()
    } else {
        match key_value_at(src, i) {
            Outcome::Done(j) => if i < j <= src.len() {
                seq![header_source_at(src, i)] + header_sources_at(src, j)
            } else {
                Seq::empty()
            },
            Outcome::Failed(_) => Seq::empty(),
        }
    }
}

/// After a header line, the header lines are that line and those that
/// follow it.
pub proof fn lemma_header_step(src: Source, i: int, j: int)
    requires
        0 <= i < src.len(),
        i < j <= src.len(),
        key_value_at(src, i) == Outcome::Done(j),
    ensures
        header_sources_at(src, i) == seq![header_source_at(src, i)] + header_sources_at(src, j),
{
    reveal(header_sources_at);
}

/// Where no header line follows, there are no header lines.
pub proof fn lemma_header_end(src: Source, i: int)
    requires
        i >= src.len() || key_value_at(src, i) is Failed,
    ensures
        header_sources_at(src, i) == Seq::<HeaderSource>::empty(),
{
    reveal(header_sources_at);
}

/// The rule of `bytes`: a string over several lines, a string between
/// backticks, JSON, XML, base64 data, hexadecimal data or a file, tried in
/// this order.
pub open spec fn bytes_at(src: Source, i: int) -> Outcome {
    or_else(
        multiline_string_at(src, i),
        or_else(
            delimited_template_at(src, i, '`'),
            or_else(
                json::json_at(src, i),
                or_else(
                    xml::xml_at(src, i),
                    or_else(base64_at(src, i), or_else(hex_at(src, i), file_at(src, i))),
                ),
            ),
        ),
    )
}

/// What the body that starts at `i` says: its kind, by the first rule that
/// reads it, and the text that it is rendered from.
#[verifier::opaque]
pub open spec fn bytes_source_at(src: Source, i: int) -> BodySource {
    if multiline_string_at(src, i) is Done {
        BodySource::Template(
            TemplateSource {
                written: src.text.subrange(
                    multiline_start(src, i + 3),
                    multiline_string_at(src, i)->Done_0 - 3,
                ),
                text: src.text.subrange(
                    multiline_start(src, i + 3),
                    multiline_string_at(src, i)->Done_0 - 3,
                ),
                reference: first_in(fenced_chars(src, multiline_start(src, i + 3))),
            },
        )
    } else if delimited_template_at(src, i, '`') is Done {
        BodySource::Template(
            TemplateSource {
                written: src.text.subrange(i, delimited_template_at(src, i, '`')->Done_0),
                text: src.text.subrange(i + 1, delimited_template_at(src, i, '`')->Done_0 - 1),
                reference: first_in(collected(src, i + 1, '`')),
            },
        )
    } else if json::json_at(src, i) is Done {
        BodySource::Json(src.text.subrange(i, json::json_at(src, i)->Done_0))
    } else if xml::xml_at(src, i) is Done {
        BodySource::Xml(src.text.subrange(i, xml::xml_at(src, i)->Done_0))
    } else if base64_at(src, i) is Done {
        BodySource::Base64
    } else if hex_at(src, i) is Done {
        BodySource::Hex
    } else {
        BodySource::File
    }
}

/// What the body that stands at or after `i` says.
pub open spec fn body_source_at(src: Source, i: int) -> BodySource {
    bytes_source_at(src, section_start(src.text, i))
}

/// The rule of `body`: what a body holds, on lines of its own.
pub open spec fn body_at(src: Source, i: int) -> Outcome {
    match bytes_at(src, section_start(src.text, i)) {
        Outcome::Done(a) => line_terminator_at(src, a),
        Outcome::Failed(e) => Outcome::Failed(e),
    }
}

/// The rule of `request`: a method, spaces, a path and the end of the
/// line, then header lines, then sections.
pub open spec fn request_at(src: Source, i: int) -> Outcome {
    match method_at(src, section_start(src.text, i)) {
        Outcome::Done(a) => match one_or_more_spaces_at(src, a) {
            Outcome::Done(b) => match path_at(src, b) {
                Outcome::Done(c) => match line_terminator_at(src, c) {
                    Outcome::Done(d) => match headers_at(src, d) {
                        Outcome::Done(e) => request_sections_at(src, e),
                        Outcome::Failed(e) => Outcome::Failed(e),
                    },
                    Outcome::Failed(e) => Outcome::Failed(e),
                },
                Outcome::Failed(e) => Outcome::Failed(e),
            },
            Outcome::Failed(e) => Outcome::Failed(e),
        },
        Outcome::Failed(e) => Outcome::Failed(e),
    }
}

/// What the request pattern that stands at or after `i` says.
#[verifier::opaque]
pub open spec fn request_source_at(src: Source, i: int) -> RequestSource {
    let s = section_start(src.text, i);
    let a = method_at(src, s)->Done_0;
    let b = one_or_more_spaces_at(src, a)->Done_0;
    let c = path_at(src, b)->Done_0;
    let d = line_terminator_at(src, c)->Done_0;
    RequestSource {
        span: SourceInfo { start: src.pos(i), end: src.pos(request_at(src, i)->Done_0) },
        method: src.text.subrange(s, a),
        path: src.text.subrange(b, c),
        headers: header_sources_at(src, d),
        sections: section_sources_at(src, headers_at(src, d)->Done_0),
    }
}

/// The rule of the body of a response, which may be missing.
pub open spec fn optional_body_at(src: Source, i: int) -> Outcome {
    if i >= src.len() {
        Outcome::Done(i)
    } else {
        match body_at(src, i) {
            Outcome::Done(j) => Outcome::Done(j),
            Outcome::Failed(e) => if e.recoverable {
                Outcome::Done(i)
            } else {
                Outcome::Failed(e)
            },
        }
    }
}

/// The rule of `response`: a version, spaces, a status and the end of the
/// line, then header lines, then optionally a body. Every failure is final.
pub open spec fn response_at(src: Source, i: int) -> Outcome {
    match version_at(src, section_start(src.text, i)) {
        Outcome::Done(a) => match one_or_more_spaces_at(src, a) {
            Outcome::Done(b) => match status_at(src, b) {
                Outcome::Done(c) => match line_terminator_at(src, c) {
                    Outcome::Done(d) => match headers_at(src, d) {
                        Outcome::Done(e) => optional_body_at(src, e),
                        Outcome::Failed(e) => Outcome::Failed(e),
                    },
                    Outcome::Failed(e) => Outcome::Failed(e),
                },
                Outcome::Failed(e) => Outcome::Failed(e),
            },
            Outcome::Failed(e) => Outcome::Failed(e),
        },
        Outcome::Failed(e) => fail(e.pos, false, ParseErrorView::Version),
    }
}

/// What the response that stands at or after `i` says.
#[verifier::opaque]
pub open spec fn response_source_at(src: Source, i: int) -> ResponseSource {
    let a = version_at(src, section_start(src.text, i))->Done_0;
    let b = one_or_more_spaces_at(src, a)->Done_0;
    let c = status_at(src, b)->Done_0;
    let d = line_terminator_at(src, c)->Done_0;
    let e = headers_at(src, d)->Done_0;
    ResponseSource {
        span: SourceInfo { start: src.pos(i), end: src.pos(response_at(src, i)->Done_0) },
        version: version_value_at(src, section_start(src.text, i) + 4),
        status: nat_of(digit_values(src.text.subrange(b, c))) as u16,
        headers: header_sources_at(src, d),
        body: if e < src.len() && body_at(src, e) is Done {
            Some(body_source_at(src, e))
        } else {
            None
        },
    }
}

/// What the entry that stands at or after `i` says.
#[verifier::opaque]
pub open spec fn entry_source_at(src: Source, i: int) -> EntrySource {
    EntrySource {
        request: request_source_at(src, i),
        response: response_source_at(src, request_at(src, i)->Done_0),
    }
}

/// What the entries from index `i` on say, one by one.
#[verifier::opaque]
pub open spec fn entry_sources_at(src: Source, i: int) -> Seq<EntrySource>
    decreases src.len() - i,
{
    if i >= src.len() {
        Seq::empty()
    } else {
        match entry_at(src, i) {
            Outcome::Done(j) => if i < j <= src.len() {
                seq![entry_source_at(src, i)] + entry_sources_at(src, j)
            } else {
                Seq::empty()
            },
            Outcome::Failed(_) => Seq::empty(),
        }
    }
}

/// After an entry, the entries are that entry and those that follow it.
pub proof fn lemma_entry_step(src: Source, i: int, j: int)
    requires
        0 <= i < src.len(),
        i < j <= src.len(),
        entry_at(src, i) == Outcome::Done(j),
    ensures
        entry_sources_at(src, i) == seq![entry_source_at(src, i)] + entry_sources_at(src, j),
{
    reveal(entry_sources_at);
}

/// Where no entry follows, there are no entries.
pub proof fn lemma_entry_end(src: Source, i: int)
    requires
        i >= src.len() || entry_at(src, i) is Failed,
    ensures
        entry_sources_at(src, i) == Seq::<EntrySource>::empty(),
{
    reveal(entry_sources_at);
}

/// The rule of `entry`: a request, then its response.
#[verifier::opaque]
pub open spec fn entry_at(src: Source, i: int) -> Outcome {
    match request_at(src, i) {
        Outcome::Done(a) => response_at(src, a),
        Outcome::Failed(e) => Outcome::Failed(e),
    }
}

/// The rule of the entries of a file: as many as there are.
pub open spec fn entries_at(src: Source, i: int) -> Outcome
    decreases src.len() - i,
{
    if i >= src.len() {
        Outcome::Done(i)
    } else {
        match entry_at(src, i) {
            Outcome::Done(j) => if i < j <= src.len() {
                entries_at(src, j)
            } else {
                Outcome::Done(i)
            },
            Outcome::Failed(e) => if e.recoverable {
                Outcome::Done(i)
            } else {
                Outcome::Failed(e)
            },
        }
    }
}

/// The rule of a whole mock file: its entries, then nothing but line
/// terminators up to the end of the text.
pub open spec fn impostor_file_at(src: Source, i: int) -> Outcome {
    match entries_at(src, i) {
        Outcome::Done(a) => eof_at(src, line_terminators_end(src.text, a)),
        Outcome::Failed(e) => Outcome::Failed(e),
    }
}

/// Whether every character is an upper-case ASCII letter.
fn all_upper(s: &String) -> (r: bool)
    ensures
        r == is_upper(s@),
{
    let chars = chars_of(s.as_str());
    let mut i: usize = 0;
    while i < chars.len()
        invariant
            i <= chars.len(),
            chars@ == s@,
            forall|k: int| 0 <= k < i ==> 'A' <= #[trigger] chars@[k] && chars@[k] <= 'Z',
        decreases chars.len() - i,
    {
        if !('A' <= chars[i] && chars[i] <= 'Z') {
            return false;
        }
        i += 1;
    }
    true
}

/// Reads a method: one or more upper-case ASCII letters. The end of the
/// text is left to another rule.
pub fn method(reader: &mut Reader) -> (r: ParseResult<Method>)
    requires
        old(reader).wf(),
    ensures
        parsed(
            old(reader),
            final(reader),
            r,
            method_at(old(reader).source(), old(reader).state.cursor as int),
        ),
        r matches Ok(m) ==> {
            &&& final(reader).state.cursor > old(reader).state.cursor
            &&& m.0@ == old(reader).text(
                old(reader).state.cursor as int,
                final(reader).state.cursor as int,
            )
            &&& is_upper(m.0@)
        },
{
    if reader.is_eof() {
        let name = "<EOF>".to_string();
        return Err(Error::new(reader.state.pos, true, ParseError::Method { name }));
    }
    let start = reader.state;
    let name = reader.read_while(CharClass::AsciiLetter);
    if reader.state.cursor == start.cursor || !all_upper(&name) {
        Err(Error::new(start.pos, false, ParseError::Method { name }))
    } else {
        Ok(Method(name))
    }
}

/// Reads a path: a slash and what follows it up to a blank, a comment or the
/// end of the line.
pub fn path(reader: &mut Reader) -> (r: ParseResult<Template>)
    requires
        old(reader).wf(),
    ensures
        parsed(
            old(reader),
            final(reader),
            r,
            path_at(old(reader).source(), old(reader).state.cursor as int),
        ),
        r matches Ok(t) ==> {
            &&& final(reader).state.cursor > old(reader).state.cursor
            &&& t.delimiter is None
            &&& t.display_spec() == old(reader).text(
                old(reader).state.cursor as int,
                final(reader).state.cursor as int,
            )
            &&& t.source_info == (SourceInfo {
                start: old(reader).state.pos,
                end: final(reader).state.pos,
            })
        },
{
    let start = reader.state;
    match reader.peek() {
        Some(c) => {
            if c != '/' {
                return Err(
                    Error::new(start.pos, false, ParseError::Expecting { value: "/".to_string() }),
                );
            }
        },
        None => {
            return Err(
                Error::new(start.pos, false, ParseError::Expecting { value: "/".to_string() }),
            );
        },
    }
    reader.read();
    loop
        invariant
            reader.follows(old(reader)),
            start == old(reader).state,
            reader.state.cursor > start.cursor,
            old(reader).buffer@[old(reader).state.cursor as int] == '/',
            path_end(reader.buffer@, start.cursor + 1) == path_end(
                reader.buffer@,
                reader.state.cursor as int,
            ),
        ensures
            path_end(reader.buffer@, reader.state.cursor as int) == reader.state.cursor,
        decreases reader.buffer@.len() - reader.state.cursor,
    {
        match reader.peek() {
            Some(c) => {
                if c != ' ' && c != '\t' && c != '\n' && c != '\r' && c != '#' {
                    reader.read();
                } else {
                    break ;
                }
            },
            None => {
                break ;
            },
        }
    }
    let value = reader.peek_back(start.cursor);
    let encoded = value.clone();
    let ghost text = value@;
    let mut elements: Vec<TemplateElement> = Vec::new();
    elements.push(TemplateElement::String { value, encoded });
    proof {
        assert(elements@.drop_last() =~= Seq::<TemplateElement>::empty());
        assert(crate::ast::elements_display(elements@.drop_last()) =~= Seq::<char>::empty());
        assert(elements@.last().display_spec() == text);
        assert(crate::ast::elements_display(elements@) =~= text);
    }
    Ok(Template { delimiter: None, elements, source_info: SourceInfo::new(start.pos, reader.state.pos) })
}

/// Reads the version of a status line: `HTTP`, alone or followed by `/1.0`,
/// `/1.1`, `/2` or `/3`. Text that does not start with `HTTP` is left to
/// another rule.
pub fn version(reader: &mut Reader) -> (r: ParseResult<Version>)
    requires
        old(reader).wf(),
    ensures
        parsed(
            old(reader),
            final(reader),
            r,
            version_at(old(reader).source(), old(reader).state.cursor as int),
        ),
        r matches Ok(v) ==> {
            &&& final(reader).state.cursor > old(reader).state.cursor
            &&& v.value == version_value_at(old(reader).source(), old(reader).state.cursor + 4)
            &&& v.source_info == (SourceInfo {
                start: old(reader).state.pos,
                end: final(reader).state.pos,
            })
        },
{
    proof {
        reveal_strlit("HTTP");
        reveal_strlit("/1.0");
        reveal_strlit("/1.1");
        reveal_strlit("/2");
        reveal_strlit("/3");
    }
    let start = reader.state;
    match try_literal("HTTP", reader) {
        Ok(_) => {},
        Err(e) => {
            return Err(e);
        },
    }
    let value = if try_literal("/1.0", reader).is_ok() {
        VersionValue::Version1
    } else if try_literal("/1.1", reader).is_ok() {
        VersionValue::Version11
    } else if try_literal("/2", reader).is_ok() {
        VersionValue::Version2
    } else if try_literal("/3", reader).is_ok() {
        VersionValue::Version3
    } else {
        VersionValue::VersionAny
    };
    Ok(Version { value, source_info: SourceInfo::new(start.pos, reader.state.pos) })
}

/// Reads the status of a status line: a natural number that fits in 16 bits.
pub fn status(reader: &mut Reader) -> (r: ParseResult<Status>)
    requires
        old(reader).wf(),
    ensures
        parsed(
            old(reader),
            final(reader),
            r,
            status_at(old(reader).source(), old(reader).state.cursor as int),
        ),
        r matches Ok(s) ==> {
            &&& final(reader).state.cursor > old(reader).state.cursor
            &&& s.value as nat == nat_of(
                digit_values(
                    old(reader).text(
                        old(reader).state.cursor as int,
                        final(reader).state.cursor as int,
                    ),
                ),
            )
            &&& s.source_info == (SourceInfo {
                start: old(reader).state.pos,
                end: final(reader).state.pos,
            })
        },
{
    let start = reader.state.pos;
    let value = match natural(reader) {
        Ok(value) => value,
        Err(_) => {
            return Err(Error::new(start, false, ParseError::Status));
        },
    };
    if value > u16::MAX as u64 {
        return Err(Error::new(start, false, ParseError::Status));
    }
    let end = reader.state.pos;
    Ok(Status { value: value as u16, source_info: SourceInfo::new(start, end) })
}

/// Reads a header line: a key, a colon, a value, and the end of the line. A
/// line that starts with no key and colon is left to another rule.
pub fn key_value(reader: &mut Reader) -> (r: ParseResult<Header>)
    requires
        old(reader).wf(),
    ensures
        parsed(
            old(reader),
            final(reader),
            r,
            key_value_at(old(reader).source(), old(reader).state.cursor as int),
        ),
        r matches Ok(h) ==> {
            &&& final(reader).state.cursor > old(reader).state.cursor
            &&& header_source(h) == header_source_at(
                old(reader).source(),
                old(reader).state.cursor as int,
            )
        },
{
    proof {
        reveal(key_value_at);
    }
    let begin = reader.state;
    let line_terminators = match optional_line_terminators(reader) {
        Ok(l) => l,
        Err(e) => {
            return Err(e.fatal());
        },
    };
    let space0 = match zero_or_more_spaces(reader) {
        Ok(w) => w,
        Err(e) => {
            return Err(e.fatal());
        },
    };
    let key = match key_string::parse(reader) {
        Ok(k) => k,
        Err(e) => {
            reader.restore(begin);
            return Err(e.recoverable());
        },
    };
    let space1 = match zero_or_more_spaces(reader) {
        Ok(w) => w,
        Err(e) => {
            return Err(e.fatal());
        },
    };
    match literal(":", reader) {
        Ok(_) => {},
        Err(e) => {
            reader.restore(begin);
            return Err(e.recoverable());
        },
    }
    let space2 = match zero_or_more_spaces(reader) {
        Ok(w) => w,
        Err(e) => {
            return Err(e.fatal());
        },
    };
    let value = match unquoted_template(reader) {
        Ok(v) => v,
        Err(e) => {
            return Err(e);
        },
    };
    let line_terminator0 = match line_terminator(reader) {
        Ok(l) => l,
        Err(e) => {
            return Err(e);
        },
    };
    proof {
        reveal(header_source_at);
        reveal_strlit(":");
    }
    Ok(Header { line_terminators, space0, key, space1, space2, value, line_terminator0 })
}

/// Reads the header lines at the cursor: none, one or many.
pub fn headers(reader: &mut Reader) -> (r: ParseResult<Vec<Header>>)
    requires
        old(reader).wf(),
    ensures
        parsed(
            old(reader),
            final(reader),
            r,
            headers_at(old(reader).source(), old(reader).state.cursor as int),
        ),
        r matches Err(e) ==> !e.recoverable,
        r matches Ok(hs) ==> header_sources(hs@) == header_sources_at(
            old(reader).source(),
            old(reader).state.cursor as int,
        ),
{
    let mut headers: Vec<Header> = Vec::new();
    proof {
        assert(header_sources(headers@) + header_sources_at(
            reader.source(),
            reader.state.cursor as int,
        ) =~= header_sources_at(reader.source(), reader.state.cursor as int));
    }
    loop
        invariant
            reader.follows(old(reader)),
            old(reader).wf(),
            headers_at(old(reader).source(), old(reader).state.cursor as int) == headers_at(
                reader.source(),
                reader.state.cursor as int,
            ),
            header_sources(headers@) + header_sources_at(
                reader.source(),
                reader.state.cursor as int,
            ) == header_sources_at(old(reader).source(), old(reader).state.cursor as int),
        ensures
            reader.follows(old(reader)),
            headers_at(old(reader).source(), old(reader).state.cursor as int) == Outcome::Done(
                reader.state.cursor as int,
            ),
            header_sources(headers@) == header_sources_at(
                old(reader).source(),
                old(reader).state.cursor as int,
            ),
        decreases reader.buffer@.len() - reader.state.cursor,
    {
        let ghost at = reader.state.cursor as int;
        let ghost rest = header_sources_at(reader.source(), at);
        let ghost prior = headers@;
        if reader.is_eof() {
            proof {
                lemma_header_end(reader.source(), at);
                assert(header_sources(headers@) + rest =~= header_sources(headers@));
            }
            break ;
        }
        match key_value(reader) {
            Ok(h) => {
                headers.push(h);
                proof {
                    lemma_header_step(reader.source(), at, reader.state.cursor as int);
                    assert(header_sources(headers@) =~= header_sources(prior).push(
                        header_source(h),
                    ));
                    assert(header_sources(headers@) + header_sources_at(
                        reader.source(),
                        reader.state.cursor as int,
                    ) =~= header_sources(prior) + rest);
                }
            },
            Err(e) => {
                if e.recoverable {
                    proof {
                        lemma_header_end(reader.source(), at);
                        assert(header_sources(headers@) + rest =~= header_sources(headers@));
                    }
                    break ;
                } else {
                    return Err(e);
                }
            },
        }
    }
    Ok(headers)
}

/// Reads what a body holds: a string over several lines, a string between
/// backticks, JSON, XML, base64 data, hexadecimal data or a file, tried in
/// this order. Text that starts none of these is left to another rule.
pub fn bytes(reader: &mut Reader) -> (r: ParseResult<Bytes>)
    requires
        old(reader).wf(),
    ensures
        parsed(
            old(reader),
            final(reader),
            r,
            bytes_at(old(reader).source(), old(reader).state.cursor as int),
        ),
        r matches Ok(b) ==> {
            &&& final(reader).state.cursor > old(reader).state.cursor
            &&& body_source(b) == bytes_source_at(
                old(reader).source(),
                old(reader).state.cursor as int,
            )
        },
{
    proof {
        reveal(bytes_source_at);
    }
    match multiline_string(reader) {
        Ok(value) => {
            return Ok(Bytes::MultilineString(value));
        },
        Err(e) => {
            if !e.recoverable {
                return Err(e);
            }
        },
    }
    match backtick_template(reader) {
        Ok(value) => {
            return Ok(Bytes::OnelineString(value));
        },
        Err(e) => {
            if !e.recoverable {
                return Err(e);
            }
        },
    }
    match json::parse(reader) {
        Ok(value) => {
            return Ok(Bytes::Json(value));
        },
        Err(e) => {
            if !e.recoverable {
                return Err(e);
            }
        },
    }
    match xml::parse(reader) {
        Ok(value) => {
            return Ok(Bytes::Xml(value));
        },
        Err(e) => {
            if !e.recoverable {
                return Err(e);
            }
        },
    }
    match base64(reader) {
        Ok(value) => {
            return Ok(Bytes::Base64(value));
        },
        Err(e) => {
            if !e.recoverable {
                return Err(e);
            }
        },
    }
    match hex(reader) {
        Ok(value) => {
            return Ok(Bytes::Hex(value));
        },
        Err(e) => {
            if !e.recoverable {
                return Err(e);
            }
        },
    }
    match file(reader) {
        Ok(value) => Ok(Bytes::File(value)),
        Err(e) => Err(e),
    }
}

/// Reads a body on lines of its own. Lines that hold no body are left to
/// another rule.
pub fn body(reader: &mut Reader) -> (r: ParseResult<Body>)
    requires
        old(reader).wf(),
    ensures
        parsed(
            old(reader),
            final(reader),
            r,
            body_at(old(reader).source(), old(reader).state.cursor as int),
        ),
        r matches Ok(b) ==> {
            &&& final(reader).state.cursor > old(reader).state.cursor
            &&& body_source(b.value) == body_source_at(
                old(reader).source(),
                old(reader).state.cursor as int,
            )
        },
{
    let begin = reader.state;
    let line_terminators = match optional_line_terminators(reader) {
        Ok(l) => l,
        Err(e) => {
            return Err(e.fatal());
        },
    };
    let space0 = match zero_or_more_spaces(reader) {
        Ok(w) => w,
        Err(e) => {
            return Err(e.fatal());
        },
    };
    let value = match bytes(reader) {
        Ok(v) => v,
        Err(e) => {
            if e.recoverable {
                reader.restore(begin);
            }
            return Err(e);
        },
    };
    let line_terminator0 = match line_terminator(reader) {
        Ok(l) => l,
        Err(e) => {
            return Err(e);
        },
    };
    Ok(Body { line_terminators, space0, value, line_terminator0 })
}

/// Reads a request pattern: the request line, the header lines, and the
/// sections. The end of the text is left to another rule.
pub fn request(reader: &mut Reader) -> (r: ParseResult<Request>)
    requires
        old(reader).wf(),
    ensures
        parsed(
            old(reader),
            final(reader),
            r,
            request_at(old(reader).source(), old(reader).state.cursor as int),
        ),
        r matches Ok(req) ==> {
            &&& final(reader).state.cursor > old(reader).state.cursor
            &&& req.source_info == (SourceInfo {
                start: old(reader).state.pos,
                end: final(reader).state.pos,
            })
            &&& is_upper(req.method.0@)
            &&& req.method.0@.len() > 0
            &&& request_source(req) == request_source_at(
                old(reader).source(),
                old(reader).state.cursor as int,
            )
        },
{
    proof {
        reveal(request_source_at);
    }
    let start = reader.state;
    let line_terminators = match optional_line_terminators(reader) {
        Ok(l) => l,
        Err(e) => {
            return Err(e.fatal());
        },
    };
    let space0 = match zero_or_more_spaces(reader) {
        Ok(w) => w,
        Err(e) => {
            return Err(e.fatal());
        },
    };
    let m = match method(reader) {
        Ok(m) => m,
        Err(e) => {
            if e.recoverable {
                reader.restore(start);
            }
            return Err(e);
        },
    };
    let space1 = match one_or_more_spaces(reader) {
        Ok(w) => w,
        Err(e) => {
            return Err(e);
        },
    };
    let path = match path(reader) {
        Ok(p) => p,
        Err(e) => {
            return Err(e);
        },
    };
    let line_terminator0 = match line_terminator(reader) {
        Ok(l) => l,
        Err(e) => {
            return Err(e);
        },
    };
    let headers = match headers(reader) {
        Ok(h) => h,
        Err(e) => {
            return Err(e);
        },
    };
    let sections = match request_sections(reader) {
        Ok(s) => s,
        Err(e) => {
            return Err(e);
        },
    };
    let source_info = SourceInfo::new(start.pos, reader.state.pos);
    Ok(
        Request {
            line_terminators,
            space0,
            method: m,
            space1,
            path,
            line_terminator0,
            headers,
            sections,
            source_info,
        },
    )
}

/// Reads a response: the status line, the header lines, and optionally a
/// body. Every failure is final: a request is always followed by its
/// response.
pub fn response(reader: &mut Reader) -> (r: ParseResult<Response>)
    requires
        old(reader).wf(),
    ensures
        parsed(
            old(reader),
            final(reader),
            r,
            response_at(old(reader).source(), old(reader).state.cursor as int),
        ),
        r matches Err(e) ==> !e.recoverable,
        r matches Ok(resp) ==> {
            &&& final(reader).state.cursor > old(reader).state.cursor
            &&& resp.source_info == (SourceInfo {
                start: old(reader).state.pos,
                end: final(reader).state.pos,
            })
            &&& response_source(resp) == response_source_at(
                old(reader).source(),
                old(reader).state.cursor as int,
            )
        },
{
    proof {
        reveal(response_source_at);
    }
    let start = reader.state;
    let line_terminators = match optional_line_terminators(reader) {
        Ok(l) => l,
        Err(e) => {
            return Err(e.fatal());
        },
    };
    let space0 = match zero_or_more_spaces(reader) {
        Ok(w) => w,
        Err(e) => {
            return Err(e.fatal());
        },
    };
    let version = match version(reader) {
        Ok(v) => v,
        Err(e) => {
            return Err(Error::new(e.pos, false, ParseError::Version));
        },
    };
    let space1 = match one_or_more_spaces(reader) {
        Ok(w) => w,
        Err(e) => {
            return Err(e);
        },
    };
    let status = match status(reader) {
        Ok(s) => s,
        Err(e) => {
            return Err(e);
        },
    };
    let line_terminator0 = match line_terminator(reader) {
        Ok(l) => l,
        Err(e) => {
            return Err(e);
        },
    };
    let headers = match headers(reader) {
        Ok(h) => h,
        Err(e) => {
            return Err(e);
        },
    };
    let body = if reader.is_eof() {
        None
    } else {
        match body(reader) {
            Ok(b) => Some(b),
            Err(e) => {
                if e.recoverable {
                    None
                } else {
                    return Err(e);
                }
            },
        }
    };
    let source_info = SourceInfo::new(start.pos, reader.state.pos);
    Ok(
        Response {
            line_terminators,
            space0,
            version,
            space1,
            status,
            line_terminator0,
            headers,
            body,
            source_info,
        },
    )
}

/// Reads an entry: a request pattern and the response to it. The end of the
/// text is left to another rule.
pub fn entry(reader: &mut Reader) -> (r: ParseResult<Entry>)
    requires
        old(reader).wf(),
    ensures
        parsed(
            old(reader),
            final(reader),
            r,
            entry_at(old(reader).source(), old(reader).state.cursor as int),
        ),
        r matches Ok(e) ==> {
            &&& final(reader).state.cursor > old(reader).state.cursor
            &&& entry_source(e) == entry_source_at(
                old(reader).source(),
                old(reader).state.cursor as int,
            )
        },
{
    proof {
        reveal(entry_at);
        reveal(entry_source);
        reveal(entry_source_at);
    }
    let request = match request(reader) {
        Ok(r) => r,
        Err(e) => {
            return Err(e);
        },
    };
    let response = match response(reader) {
        Ok(r) => r,
        Err(e) => {
            return Err(e);
        },
    };
    Ok(Entry { request, response })
}

/// Reads a whole mock file: its entries, then nothing but line terminators
/// up to the end of the text.
pub fn impostor_file(reader: &mut Reader) -> (r: ParseResult<ImpostorFile>)
    requires
        old(reader).wf(),
    ensures
        parsed(
            old(reader),
            final(reader),
            r,
            impostor_file_at(old(reader).source(), old(reader).state.cursor as int),
        ),
        r matches Err(e) ==> !e.recoverable,
        r matches Ok(file) ==> {
            &&& final(reader).state.cursor == final(reader).buffer@.len()
            &&& entry_sources(file.entries@) == entry_sources_at(
                old(reader).source(),
                old(reader).state.cursor as int,
            )
        },
{
    let mut entries: Vec<Entry> = Vec::new();
    proof {
        assert(entry_sources(entries@) + entry_sources_at(
            reader.source(),
            reader.state.cursor as int,
        ) =~= entry_sources_at(reader.source(), reader.state.cursor as int));
    }
    loop
        invariant
            reader.follows(old(reader)),
            old(reader).wf(),
            entries_at(old(reader).source(), old(reader).state.cursor as int) == entries_at(
                reader.source(),
                reader.state.cursor as int,
            ),
            entry_sources(entries@) + entry_sources_at(
                reader.source(),
                reader.state.cursor as int,
            ) == entry_sources_at(old(reader).source(), old(reader).state.cursor as int),
        ensures
            reader.follows(old(reader)),
            entries_at(old(reader).source(), old(reader).state.cursor as int) == Outcome::Done(
                reader.state.cursor as int,
            ),
            entry_sources(entries@) == entry_sources_at(
                old(reader).source(),
                old(reader).state.cursor as int,
            ),
        decreases reader.buffer@.len() - reader.state.cursor,
    {
        let ghost at = reader.state.cursor as int;
        let ghost rest = entry_sources_at(reader.source(), at);
        let ghost prior = entries@;
        if reader.is_eof() {
            proof {
                lemma_entry_end(reader.source(), at);
                assert(entry_sources(entries@) + rest =~= entry_sources(entries@));
            }
            break ;
        }
        match entry(reader) {
            Ok(e) => {
                entries.push(e);
                proof {
                    lemma_entry_step(reader.source(), at, reader.state.cursor as int);
                    assert(entry_sources(entries@) =~= entry_sources(prior).push(
                        entry_source(e),
                    ));
                    assert(entry_sources(entries@) + entry_sources_at(
                        reader.source(),
                        reader.state.cursor as int,
                    ) =~= entry_sources(prior) + rest);
                }
            },
            Err(e) => {
                if e.recoverable {
                    proof {
                        lemma_entry_end(reader.source(), at);
                        assert(entry_sources(entries@) + rest =~= entry_sources(entries@));
                    }
                    break ;
                } else {
                    return Err(e);
                }
            },
        }
    }
    let line_terminators = match optional_line_terminators(reader) {
        Ok(l) => l,
        Err(e) => {
            return Err(e.fatal());
        },
    };
    match eof(reader) {
        Ok(_) => {},
        Err(e) => {
            return Err(e);
        },
    }
    Ok(ImpostorFile { entries, line_terminators })
}

} // verus!
