//! The sections of a request: `[Captures]` and `[Asserts]`.

use vstd::prelude::*;

use crate::asserts::{assert_source, assert_sources, AssertSource};
use crate::ast::{Assert, Capture, Pos, RequestSection, RequestSectionValue, SourceInfo};
use crate::entry::source::{
    capture_source, capture_sources, section_source, section_sources, CaptureSource,
    SectionLines, SectionSource,
};
use crate::parser::error::{Error, ParseError, ParseErrorView};
use crate::parser::filter::{filter_sources_at, filters, filters_at};
use crate::parser::key_string;
use crate::parser::predicate::{not_end, predicate, predicate_at, test_at};
use crate::parser::primitives::{
    blank_at, expecting, fail, line_end_source_at, line_end_sources_at, line_terminator,
    line_terminator_at, line_terminators_end, literal, literal_at, one_or_more_spaces,
    one_or_more_spaces_at, optional_line_terminators, parsed, spaces_end, zero_or_more_spaces,
    Outcome, ParseResult,
};
use crate::parser::query::{query, query_at, query_source_at, right_of};
use crate::parser::reader::{run_end, successor, CharClass, Reader, Source};

verus! {

/// Where the first thing on the line that stands at or after `i` starts:
/// after the line terminators and the spaces before it.
pub open spec fn section_start(text: Seq<char>, i: int) -> int {
    spaces_end(text, line_terminators_end(text, i))
}

/// The rule of `section_name`: an opening bracket, one or more letters or
/// digits, a closing bracket. Every failure leaves room for another rule.
pub open spec fn section_name_at(src: Source, i: int) -> Outcome {
    let n = run_end(src.text, CharClass::Alphanumeric, i + 1);
    if !(0 <= i < src.len() && src.text[i] == '[') {
        fail(src.pos(i), true, expecting("["@))
    } else if n <= i + 1 {
        fail(src.pos(i), true, expecting("a valid section name"@))
    } else if !(n < src.len() && src.text[n] == ']') {
        fail(src.pos(n), true, expecting("]"@))
    } else {
        Outcome::Done(n + 1)
    }
}

/// The rule of `capture`: a name, a colon, a query, filters, and the end of
/// the line. A line that starts with no name, colon and query is left to
/// another rule.
#[verifier::opaque]
pub open spec fn capture_at(src: Source, i: int) -> Outcome {
    match key_string::parse_at(src, section_start(src.text, i)) {
        Outcome::Done(a) => match literal_at(src, spaces_end(src.text, a), ":"@) {
            Outcome::Done(b) => match query_at(src, spaces_end(src.text, b)) {
                Outcome::Done(c) => match filters_at(src, c) {
                    Outcome::Done(d) => line_terminator_at(src, d),
                    Outcome::Failed(e) => Outcome::Failed(e),
                },
                Outcome::Failed(e) => Outcome::Failed(e),
            },
            Outcome::Failed(e) => Outcome::Failed(e.recoverable()),
        },
        Outcome::Failed(e) => Outcome::Failed(e.recoverable()),
    }
}

/// The rule of `assert_line`: a query, filters, spaces, a predicate, and the
/// end of the line. A line that starts with no query is left to another
/// rule.
#[verifier::opaque]
pub open spec fn assert_at(src: Source, i: int) -> Outcome {
    match query_at(src, section_start(src.text, i)) {
        Outcome::Done(a) => match filters_at(src, a) {
            Outcome::Done(b) => match one_or_more_spaces_at(src, b) {
                Outcome::Done(c) => match predicate_at(src, c) {
                    Outcome::Done(d) => line_terminator_at(src, d),
                    Outcome::Failed(e) => Outcome::Failed(e),
                },
                Outcome::Failed(e) => Outcome::Failed(e),
            },
            Outcome::Failed(e) => Outcome::Failed(e),
        },
        Outcome::Failed(e) => Outcome::Failed(e),
    }
}

/// Where the predicate of the assert line that stands at or after `i`
/// starts: after its query, its filters and spaces.
pub open spec fn predicate_start(src: Source, i: int) -> int {
    spaces_end(src.text, filters_at(src, query_at(src, section_start(src.text, i))->Done_0)->Done_0)
}

/// What the assert line that stands at or after `i` says.
#[verifier::opaque]
pub open spec fn assert_source_at(src: Source, i: int) -> AssertSource {
    AssertSource {
        query: query_source_at(src, section_start(src.text, i)),
        test: test_at(src, not_end(src, predicate_start(src, i))),
        not: not_end(src, predicate_start(src, i)) > predicate_start(src, i),
        filters: filter_sources_at(src, query_at(src, section_start(src.text, i))->Done_0),
        query_span: SourceInfo {
            start: src.pos(section_start(src.text, i)),
            end: src.pos(query_at(src, section_start(src.text, i))->Done_0),
        },
        test_span: SourceInfo {
            start: src.pos(not_end(src, predicate_start(src, i))),
            end: src.pos(predicate_at(src, predicate_start(src, i))->Done_0),
        },
        lines_before: line_end_sources_at(src, i),
        indent: blank_at(src, line_terminators_end(src.text, i), section_start(src.text, i)),
        gap: blank_at(
            src,
            filters_at(src, query_at(src, section_start(src.text, i))->Done_0)->Done_0,
            predicate_start(src, i),
        ),
        line_end: line_end_source_at(src, predicate_at(src, predicate_start(src, i))->Done_0),
    }
}

/// What the assert lines from index `i` on say, one by one.
#[verifier::opaque]
pub open spec fn assert_sources_at(src: Source, i: int) -> Seq<AssertSource>
    decreases src.len() - i,
{
    if i >= src.len() {
        Seq::empty()
    } else {
        match assert_at(src, i) {
            Outcome::Done(j) => if i < j <= src.len() {
                seq![assert_source_at(src, i)] + assert_sources_at(src, j)
            } else {
                Seq::empty()
            },
            Outcome::Failed(_) => Seq::empty(),
        }
    }
}

/// What the capture line that stands at or after `i` says.
#[verifier::opaque]
pub open spec fn capture_source_at(src: Source, i: int) -> CaptureSource {
    let s = section_start(src.text, i);
    let a = key_string::parse_at(src, s)->Done_0;
    let q = spaces_end(src.text, spaces_end(src.text, a) + 1);
    CaptureSource {
        name: src.text.subrange(s, a),
        query: query_source_at(src, q),
        filters: filter_sources_at(src, query_at(src, q)->Done_0),
        name_span: SourceInfo { start: src.pos(s), end: src.pos(a) },
        query_span: SourceInfo { start: src.pos(q), end: src.pos(query_at(src, q)->Done_0) },
        lines_before: line_end_sources_at(src, i),
        indent: blank_at(src, line_terminators_end(src.text, i), s),
        before_colon: blank_at(src, a, spaces_end(src.text, a)),
        after_colon: blank_at(src, spaces_end(src.text, a) + 1, q),
        line_end: line_end_source_at(src, filters_at(src, query_at(src, q)->Done_0)->Done_0),
    }
}

/// What the capture lines from index `i` on say, one by one.
#[verifier::opaque]
pub open spec fn capture_sources_at(src: Source, i: int) -> Seq<CaptureSource>
    decreases src.len() - i,
{
    if i >= src.len() {
        Seq::empty()
    } else {
        match capture_at(src, i) {
            Outcome::Done(j) => if i < j <= src.len() {
                seq![capture_source_at(src, i)] + capture_sources_at(src, j)
            } else {
                Seq::empty()
            },
            Outcome::Failed(_) => Seq::empty(),
        }
    }
}

/// Where the lines of the section that stands at or after `i` start.
pub open spec fn section_body(src: Source, i: int) -> int {
    line_terminator_at(src, section_name_at(src, section_start(src.text, i))->Done_0)->Done_0
}

/// Whether the section that stands at or after `i` is an `[Asserts]`
/// section.
pub open spec fn is_asserts_section(src: Source, i: int) -> bool {
    section_name_text(
        src,
        section_start(src.text, i),
        section_name_at(src, section_start(src.text, i))->Done_0,
    ) == "Asserts"@
}

/// What the section that stands at or after `i` says.
pub open spec fn section_source_at(src: Source, i: int) -> SectionSource {
    SectionSource {
        span: SourceInfo {
            start: src.pos(section_start(src.text, i)),
            end: src.pos(section_name_at(src, section_start(src.text, i))->Done_0),
        },
        lines: if is_asserts_section(src, i) {
            SectionLines::Asserts(assert_sources_at(src, section_body(src, i)))
        } else {
            SectionLines::Captures(capture_sources_at(src, section_body(src, i)))
        },
        lines_before: line_end_sources_at(src, i),
        indent: blank_at(src, line_terminators_end(src.text, i), section_start(src.text, i)),
        line_end: line_end_source_at(
            src,
            section_name_at(src, section_start(src.text, i))->Done_0,
        ),
    }
}

/// What the sections from index `i` on say, one by one.
#[verifier::opaque]
pub open spec fn section_sources_at(src: Source, i: int) -> Seq<SectionSource>
    decreases src.len() - i,
{
    if i >= src.len() {
        Seq::empty()
    } else {
        match request_section_at(src, i) {
            Outcome::Done(j) => if i < j <= src.len() {
                seq![section_source_at(src, i)] + section_sources_at(src, j)
            } else {
                Seq::empty()
            },
            Outcome::Failed(_) => Seq::empty(),
        }
    }
}

/// The rule of the lines of a `[Captures]` section: capture lines, as many
/// as there are.
pub open spec fn captures_at(src: Source, i: int) -> Outcome
    decreases src.len() - i,
{
    if i >= src.len() {
        Outcome::Done(i)
    } else {
        match capture_at(src, i) {
            Outcome::Done(j) => if i < j <= src.len() {
                captures_at(src, j)
            } else {
                Outcome::Done(i)
            },
            Outcome::Failed(e) => if e.recoverable {
                Outcome::Done(i)
            } else {
                Outcome::Failed(e)
            },
        }
    }
}

/// The rule of the lines of an `[Asserts]` section: assert lines, as many
/// as there are.
pub open spec fn asserts_at(src: Source, i: int) -> Outcome
    decreases src.len() - i,
{
    if i >= src.len() {
        Outcome::Done(i)
    } else {
        match assert_at(src, i) {
            Outcome::Done(j) => if i < j <= src.len() {
                asserts_at(src, j)
            } else {
                Outcome::Done(i)
            },
            Outcome::Failed(e) => if e.recoverable {
                Outcome::Done(i)
            } else {
                Outcome::Failed(e)
            },
        }
    }
}

/// The name of the section whose name starts at `s` and ends, brackets
/// included, at `n`.
pub open spec fn section_name_text(src: Source, s: int, n: int) -> Seq<char> {
    src.text.subrange(s + 1, n - 1)
}

/// The rule of `request_section`: the name of a section between brackets on
/// a line of its own, then the lines of the section. A name that is no name
/// of a section is a final failure, reported one column after the opening
/// bracket.
#[verifier::opaque]
pub open spec fn request_section_at(src: Source, i: int) -> Outcome {
    let s = section_start(src.text, i);
    match section_name_at(src, s) {
        Outcome::Done(n) => match line_terminator_at(src, n) {
            Outcome::Done(a) => if section_name_text(src, s, n) == "Captures"@ {
                captures_at(src, a)
            } else if section_name_text(src, s, n) == "Asserts"@ {
                asserts_at(src, a)
            } else {
                fail(
                    right_of(src.pos(s)),
                    false,
                    ParseErrorView::ResponseSectionName { name: section_name_text(src, s, n) },
                )
            },
            Outcome::Failed(e) => Outcome::Failed(e),
        },
        Outcome::Failed(e) => Outcome::Failed(e),
    }
}

/// The rule of `request_sections`: sections, as many as there are.
pub open spec fn request_sections_at(src: Source, i: int) -> Outcome
    decreases src.len() - i,
{
    if i >= src.len() {
        Outcome::Done(i)
    } else {
        match request_section_at(src, i) {
            Outcome::Done(j) => if i < j <= src.len() {
                request_sections_at(src, j)
            } else {
                Outcome::Done(i)
            },
            Outcome::Failed(e) => if e.recoverable {
                Outcome::Done(i)
            } else {
                Outcome::Failed(e)
            },
        }
    }
}

/// After a section, the sections are that section and those that follow
/// it.
pub proof fn lemma_section_step(src: Source, i: int, j: int)
    requires
        0 <= i < src.len(),
        i < j <= src.len(),
        request_section_at(src, i) == Outcome::Done(j),
    ensures
        section_sources_at(src, i) == seq![section_source_at(src, i)] + section_sources_at(src, j),
{
    reveal(section_sources_at);
}

/// Where no section follows, there are no sections.
pub proof fn lemma_section_end(src: Source, i: int)
    requires
        i >= src.len() || request_section_at(src, i) is Failed,
    ensures
        section_sources_at(src, i) == Seq::<SectionSource>::empty(),
{
    reveal(section_sources_at);
}

/// After a capture line, the capture lines are that line and those that
/// follow it.
pub proof fn lemma_capture_step(src: Source, i: int, j: int)
    requires
        0 <= i < src.len(),
        i < j <= src.len(),
        capture_at(src, i) == Outcome::Done(j),
    ensures
        capture_sources_at(src, i) == seq![capture_source_at(src, i)] + capture_sources_at(src, j),
{
    reveal(capture_sources_at);
}

/// Where no capture line follows, there are no capture lines.
pub proof fn lemma_capture_end(src: Source, i: int)
    requires
        i >= src.len() || capture_at(src, i) is Failed,
    ensures
        capture_sources_at(src, i) == Seq::<CaptureSource>::empty(),
{
    reveal(capture_sources_at);
}

/// After an assert line, the assert lines are that line and those that
/// follow it.
pub proof fn lemma_assert_step(src: Source, i: int, j: int)
    requires
        0 <= i < src.len(),
        i < j <= src.len(),
        assert_at(src, i) == Outcome::Done(j),
    ensures
        assert_sources_at(src, i) == seq![assert_source_at(src, i)] + assert_sources_at(src, j),
{
    reveal(assert_sources_at);
}

/// Where no assert line follows, there are no assert lines.
pub proof fn lemma_assert_end(src: Source, i: int)
    requires
        i >= src.len() || assert_at(src, i) is Failed,
    ensures
        assert_sources_at(src, i) == Seq::<AssertSource>::empty(),
{
    reveal(assert_sources_at);
}

/// Reads the sections of a request: none, one or many.
pub fn request_sections(reader: &mut Reader) -> (r: ParseResult<Vec<RequestSection>>)
    requires
        old(reader).wf(),
    ensures
        parsed(
            old(reader),
            final(reader),
            r,
            request_sections_at(old(reader).source(), old(reader).state.cursor as int),
        ),
        r matches Err(e) ==> !e.recoverable,
        r matches Ok(sections) ==> {
            &&& (sections@.len() == 0 <==> final(reader).state == old(reader).state)
            &&& section_sources(sections@) == section_sources_at(
                old(reader).source(),
                old(reader).state.cursor as int,
            )
        },
{
    let mut sections: Vec<RequestSection> = Vec::new();
    proof {
        assert(section_sources(sections@) + section_sources_at(
            reader.source(),
            reader.state.cursor as int,
        ) =~= section_sources_at(reader.source(), reader.state.cursor as int));
    }
    loop
        invariant
            reader.follows(old(reader)),
            old(reader).wf(),
            sections@.len() == 0 <==> reader.state == old(reader).state,
            request_sections_at(old(reader).source(), old(reader).state.cursor as int)
                == request_sections_at(reader.source(), reader.state.cursor as int),
            section_sources(sections@) + section_sources_at(
                reader.source(),
                reader.state.cursor as int,
            ) == section_sources_at(old(reader).source(), old(reader).state.cursor as int),
        ensures
            reader.follows(old(reader)),
            sections@.len() == 0 <==> reader.state == old(reader).state,
            request_sections_at(old(reader).source(), old(reader).state.cursor as int)
                == Outcome::Done(reader.state.cursor as int),
            section_sources(sections@) == section_sources_at(
                old(reader).source(),
                old(reader).state.cursor as int,
            ),
        decreases reader.buffer@.len() - reader.state.cursor,
    {
        let ghost at = reader.state.cursor as int;
        let ghost rest = section_sources_at(reader.source(), at);
        let ghost prior = sections@;
        if reader.is_eof() {
            proof {
                lemma_section_end(reader.source(), at);
                assert(section_sources(sections@) + rest =~= section_sources(sections@));
            }
            break ;
        }
        match request_section(reader) {
            Ok(section) => {
                sections.push(section);
                proof {
                    lemma_section_step(reader.source(), at, reader.state.cursor as int);
                    assert(section_sources(sections@) =~= section_sources(prior).push(
                        section_source(section),
                    ));
                    assert(section_sources(sections@) + section_sources_at(
                        reader.source(),
                        reader.state.cursor as int,
                    ) =~= section_sources(prior) + rest);
                }
            },
            Err(e) => {
                if e.recoverable {
                    proof {
                        lemma_section_end(reader.source(), at);
                        assert(section_sources(sections@) + rest =~= section_sources(sections@));
                    }
                    break ;
                } else {
                    return Err(e);
                }
            },
        }
    }
    Ok(sections)
}

/// Reads one section of a request: its name between brackets on a line of
/// its own, then its lines. A name that is no name of a section is a final
/// failure, reported one column after the opening bracket.
pub fn request_section(reader: &mut Reader) -> (r: ParseResult<RequestSection>)
    requires
        old(reader).wf(),
    ensures
        parsed(
            old(reader),
            final(reader),
            r,
            request_section_at(old(reader).source(), old(reader).state.cursor as int),
        ),
        r matches Ok(section) ==> {
            let start = section_start(old(reader).buffer@, old(reader).state.cursor as int);
            let end = section_name_at(old(reader).source(), start)->Done_0;
            &&& section_name_at(old(reader).source(), start) is Done
            &&& final(reader).state.cursor > old(reader).state.cursor
            &&& section.source_info == (SourceInfo {
                start: old(reader).pos_of(start),
                end: old(reader).pos_of(end),
            })
            &&& match section.value {
                RequestSectionValue::Captures(_) => section_name_text(
                    old(reader).source(),
                    start,
                    end,
                ) == "Captures"@,
                RequestSectionValue::Asserts(_) => section_name_text(
                    old(reader).source(),
                    start,
                    end,
                ) == "Asserts"@,
            }
            &&& section_source(section) == section_source_at(
                old(reader).source(),
                old(reader).state.cursor as int,
            )
        },
{
    proof {
        reveal(request_section_at);
    }
    let begin = reader.state;
    let line_terminators = match optional_line_terminators(reader) {
        Ok(l) => l,
        Err(e) => {
            return Err(e.fatal());
        },
    };
    let space0 = match zero_or_more_spaces(reader) {
        Ok(w) => w,
        Err(e) => {
            return Err(e.fatal());
        },
    };
    let start = reader.state.pos;
    let name = match section_name(reader) {
        Ok(n) => n,
        Err(e) => {
            reader.restore(begin);
            return Err(e);
        },
    };
    let source_info = SourceInfo { start, end: reader.state.pos };
    let line_terminator0 = match line_terminator(reader) {
        Ok(l) => l,
        Err(e) => {
            return Err(e);
        },
    };
    proof {
        reveal_strlit("Captures");
        reveal_strlit("Asserts");
    }
    let value = if name == "Captures".to_string() {
        match section_value_captures(reader) {
            Ok(v) => v,
            Err(e) => {
                return Err(e);
            },
        }
    } else if name == "Asserts".to_string() {
        match section_value_asserts(reader) {
            Ok(v) => v,
            Err(e) => {
                return Err(e);
            },
        }
    } else {
        let inner = ParseError::ResponseSectionName { name: name.clone() };
        let pos = Pos::new(start.line, successor(start.column));
        return Err(Error::new(pos, false, inner));
    };
    Ok(RequestSection { line_terminators, space0, line_terminator0, value, source_info })
}

/// Reads the name of a section between brackets: one or more letters or
/// digits. Brackets that hold nothing are left to another rule, as is text
/// that starts with no bracket.
pub fn section_name(reader: &mut Reader) -> (r: ParseResult<String>)
    requires
        old(reader).wf(),
    ensures
        parsed(
            old(reader),
            final(reader),
            r,
            section_name_at(old(reader).source(), old(reader).state.cursor as int),
        ),
        r matches Ok(name) ==> {
            &&& name@ == section_name_text(
                old(reader).source(),
                old(reader).state.cursor as int,
                final(reader).state.cursor as int,
            )
            &&& name@.len() > 0
        },
{
    let begin = reader.state;
    match reader.peek() {
        Some(c) => {
            if c != '[' {
                return Err(
                    Error::new(begin.pos, true, ParseError::Expecting { value: "[".to_string() }),
                );
            }
        },
        None => {
            return Err(
                Error::new(begin.pos, true, ParseError::Expecting { value: "[".to_string() }),
            );
        },
    }
    reader.read();
    let name = reader.read_while(CharClass::Alphanumeric);
    if reader.state.cursor == begin.cursor + 1 {
        // Could be the empty json array for the body
        let inner = ParseError::Expecting { value: "a valid section name".to_string() };
        reader.restore(begin);
        return Err(Error::new(begin.pos, true, inner));
    }
    let closed = match reader.peek() {
        Some(c) => c == ']',
        None => false,
    };
    if !closed {
        let pos = reader.state.pos;
        reader.restore(begin);
        return Err(Error::new(pos, true, ParseError::Expecting { value: "]".to_string() }));
    }
    reader.read();
    Ok(name)
}

/// Reads the lines of a `[Captures]` section.
pub fn section_value_captures(reader: &mut Reader) -> (r: ParseResult<RequestSectionValue>)
    requires
        old(reader).wf(),
    ensures
        parsed(
            old(reader),
            final(reader),
            r,
            captures_at(old(reader).source(), old(reader).state.cursor as int),
        ),
        r matches Err(e) ==> !e.recoverable,
        r matches Ok(v) ==> {
            &&& v is Captures
            &&& capture_sources(v->Captures_0@) == capture_sources_at(
                old(reader).source(),
                old(reader).state.cursor as int,
            )
        },
{
    let mut items: Vec<Capture> = Vec::new();
    proof {
        assert(capture_sources(items@) + capture_sources_at(
            reader.source(),
            reader.state.cursor as int,
        ) =~= capture_sources_at(reader.source(), reader.state.cursor as int));
    }
    loop
        invariant
            reader.follows(old(reader)),
            old(reader).wf(),
            captures_at(old(reader).source(), old(reader).state.cursor as int) == captures_at(
                reader.source(),
                reader.state.cursor as int,
            ),
            capture_sources(items@) + capture_sources_at(
                reader.source(),
                reader.state.cursor as int,
            ) == capture_sources_at(old(reader).source(), old(reader).state.cursor as int),
        ensures
            reader.follows(old(reader)),
            captures_at(old(reader).source(), old(reader).state.cursor as int) == Outcome::Done(
                reader.state.cursor as int,
            ),
            capture_sources(items@) == capture_sources_at(
                old(reader).source(),
                old(reader).state.cursor as int,
            ),
        decreases reader.buffer@.len() - reader.state.cursor,
    {
        let ghost at = reader.state.cursor as int;
        let ghost rest = capture_sources_at(reader.source(), at);
        let ghost prior = items@;
        if reader.is_eof() {
            proof {
                lemma_capture_end(reader.source(), at);
                assert(capture_sources(items@) + rest =~= capture_sources(items@));
            }
            break ;
        }
        match capture(reader) {
            Ok(item) => {
                items.push(item);
                proof {
                    lemma_capture_step(reader.source(), at, reader.state.cursor as int);
                    assert(capture_sources(items@) =~= capture_sources(prior).push(
                        capture_source(item),
                    ));
                    assert(capture_sources(items@) + capture_sources_at(
                        reader.source(),
                        reader.state.cursor as int,
                    ) =~= capture_sources(prior) + rest);
                }
            },
            Err(e) => {
                if e.recoverable {
                    proof {
                        lemma_capture_end(reader.source(), at);
                        assert(capture_sources(items@) + rest =~= capture_sources(items@));
                    }
                    break ;
                } else {
                    return Err(e);
                }
            },
        }
    }
    Ok(RequestSectionValue::Captures(items))
}

/// Reads the lines of an `[Asserts]` section.
pub fn section_value_asserts(reader: &mut Reader) -> (r: ParseResult<RequestSectionValue>)
    requires
        old(reader).wf(),
    ensures
        parsed(
            old(reader),
            final(reader),
            r,
            asserts_at(old(reader).source(), old(reader).state.cursor as int),
        ),
        r matches Err(e) ==> !e.recoverable,
        r matches Ok(v) ==> {
            &&& v is Asserts
            &&& assert_sources(v->Asserts_0@) == assert_sources_at(
                old(reader).source(),
                old(reader).state.cursor as int,
            )
        },
{
    let mut asserts: Vec<Assert> = Vec::new();
    proof {
        assert(assert_sources(asserts@) + assert_sources_at(
            reader.source(),
            reader.state.cursor as int,
        ) =~= assert_sources_at(reader.source(), reader.state.cursor as int));
    }
    loop
        invariant
            reader.follows(old(reader)),
            old(reader).wf(),
            assert_sources(asserts@) + assert_sources_at(
                reader.source(),
                reader.state.cursor as int,
            ) == assert_sources_at(old(reader).source(), old(reader).state.cursor as int),
            asserts_at(old(reader).source(), old(reader).state.cursor as int) == asserts_at(
                reader.source(),
                reader.state.cursor as int,
            ),
        ensures
            reader.follows(old(reader)),
            asserts_at(old(reader).source(), old(reader).state.cursor as int) == Outcome::Done(
                reader.state.cursor as int,
            ),
            assert_sources(asserts@) == assert_sources_at(
                old(reader).source(),
                old(reader).state.cursor as int,
            ),
        decreases reader.buffer@.len() - reader.state.cursor,
    {
        let ghost at = reader.state.cursor as int;
        let ghost rest = assert_sources_at(reader.source(), at);
        let ghost prior = asserts@;
        if reader.is_eof() {
            proof {
                lemma_assert_end(reader.source(), at);
            }
            assert(assert_sources(asserts@) + rest =~= assert_sources(asserts@));
            break ;
        }
        match assert_line(reader) {
            Ok(item) => {
                asserts.push(item);
                proof {
                    lemma_assert_step(reader.source(), at, reader.state.cursor as int);
                    assert(assert_sources(asserts@) =~= assert_sources(prior).push(
                        assert_source(item),
                    ));
                    assert(assert_sources(asserts@) + assert_sources_at(
                        reader.source(),
                        reader.state.cursor as int,
                    ) =~= assert_sources(prior) + rest);
                }
            },
            Err(e) => {
                if e.recoverable {
                    proof {
                        lemma_assert_end(reader.source(), at);
                    }
                    assert(assert_sources(asserts@) + rest =~= assert_sources(asserts@));
                    break ;
                } else {
                    return Err(e);
                }
            },
        }
    }
    Ok(RequestSectionValue::Asserts(asserts))
}

/// Reads a capture line: a name, a colon, a query, filters, and the end of
/// the line. A line that starts with no name and colon is left to another
/// rule.
pub fn capture(reader: &mut Reader) -> (r: ParseResult<Capture>)
    requires
        old(reader).wf(),
    ensures
        parsed(
            old(reader),
            final(reader),
            r,
            capture_at(old(reader).source(), old(reader).state.cursor as int),
        ),
        r matches Ok(c) ==> {
            &&& final(reader).state.cursor > old(reader).state.cursor
            &&& c.name.source_info.start == old(reader).pos_of(
                section_start(old(reader).buffer@, old(reader).state.cursor as int),
            )
            &&& c.name.delimiter is None
            &&& capture_source(c) == capture_source_at(
                old(reader).source(),
                old(reader).state.cursor as int,
            )
        },
{
    proof {
        reveal(capture_at);
        reveal(capture_source);
        reveal(capture_source_at);
        reveal_strlit(":");
    }
    let begin = reader.state;
    let line_terminators = match optional_line_terminators(reader) {
        Ok(l) => l,
        Err(e) => {
            return Err(e.fatal());
        },
    };
    let space0 = match zero_or_more_spaces(reader) {
        Ok(w) => w,
        Err(e) => {
            return Err(e.fatal());
        },
    };
    let name = match key_string::parse(reader) {
        Ok(n) => n,
        Err(e) => {
            reader.restore(begin);
            return Err(e.recoverable());
        },
    };
    let space1 = match zero_or_more_spaces(reader) {
        Ok(w) => w,
        Err(e) => {
            return Err(e.fatal());
        },
    };
    match literal(":", reader) {
        Ok(_) => {},
        Err(e) => {
            reader.restore(begin);
            return Err(e.recoverable());
        },
    }
    let space2 = match zero_or_more_spaces(reader) {
        Ok(w) => w,
        Err(e) => {
            return Err(e.fatal());
        },
    };
    let q = match query(reader) {
        Ok(q) => q,
        Err(e) => {
            if e.recoverable {
                reader.restore(begin);
            }
            return Err(e);
        },
    };
    let filters = match filters(reader) {
        Ok(f) => f,
        Err(e) => {
            return Err(e);
        },
    };
    let line_terminator0 = match line_terminator(reader) {
        Ok(l) => l,
        Err(e) => {
            return Err(e);
        },
    };
    Ok(
        Capture {
            line_terminators,
            space0,
            name,
            space1,
            space2,
            query: q,
            filters,
            line_terminator0,
        },
    )
}

/// Reads an assert line: a query, filters, spaces, a predicate, and the end
/// of the line. A line that starts with no query is left to another rule.
pub fn assert_line(reader: &mut Reader) -> (r: ParseResult<Assert>)
    requires
        old(reader).wf(),
    ensures
        parsed(
            old(reader),
            final(reader),
            r,
            assert_at(old(reader).source(), old(reader).state.cursor as int),
        ),
        r matches Ok(a) ==> {
            &&& final(reader).state.cursor > old(reader).state.cursor
            &&& a.query.source_info.start == old(reader).pos_of(
                section_start(old(reader).buffer@, old(reader).state.cursor as int),
            )
            &&& assert_source(a) == assert_source_at(
                old(reader).source(),
                old(reader).state.cursor as int,
            )
        },
{
    proof {
        reveal(assert_at);
    }
    let begin = reader.state;
    let line_terminators = match optional_line_terminators(reader) {
        Ok(l) => l,
        Err(e) => {
            return Err(e.fatal());
        },
    };
    let space0 = match zero_or_more_spaces(reader) {
        Ok(w) => w,
        Err(e) => {
            return Err(e.fatal());
        },
    };
    let query0 = match query(reader) {
        Ok(q) => q,
        Err(e) => {
            if e.recoverable {
                reader.restore(begin);
            }
            return Err(e);
        },
    };
    let filters = match filters(reader) {
        Ok(f) => f,
        Err(e) => {
            return Err(e);
        },
    };
    let space1 = match one_or_more_spaces(reader) {
        Ok(w) => w,
        Err(e) => {
            return Err(e);
        },
    };
    let predicate0 = match predicate(reader) {
        Ok(p) => p,
        Err(e) => {
            return Err(e);
        },
    };
    let line_terminator0 = match line_terminator(reader) {
        Ok(l) => l,
        Err(e) => {
            return Err(e);
        },
    };
    proof {
        reveal(assert_source);
        reveal(assert_source_at);
    }
    Ok(
        Assert {
            line_terminators,
            space0,
            query: query0,
            filters,
            space1,
            predicate: predicate0,
            line_terminator0,
        },
    )
}

} // verus!
