//! The smallest rules of the grammar: spaces, line ends, comments and
//! literals.

use vstd::prelude::*;

use crate::ast::{Comment, LineTerminator, Pos, SourceInfo, Whitespace};
use crate::blanks::{line_end_source, line_end_sources, BlankSource, LineEndSource};
use crate::parser::error::{Error, ErrorView, ParseError, ParseErrorView};
use crate::parser::reader::{Reader, Source};
use crate::text::chars_of;

verus! {

pub type ParseResult<T> = Result<T, Error>;

pub open spec fn is_space(c: char) -> bool {
    c == ' ' || c == '\t'
}

/// The first index at or after `i` that holds no space or tab.
pub open spec fn spaces_end(buffer: Seq<char>, i: int) -> int
    decreases buffer.len() - i,
{
    if 0 <= i < buffer.len() && is_space(buffer[i]) {
        spaces_end(buffer, i + 1)
    } else {
        i
    }
}

/// Whether the text holds `s` at index `i`.
pub open spec fn has_literal(buffer: Seq<char>, i: int, s: Seq<char>) -> bool {
    0 <= i && i + s.len() <= buffer.len() && buffer.subrange(i, i + s.len()) == s
}

/// The length of the line end at index `i`: 2 for a carriage return and a
/// line feed, 1 for a line feed, 0 when there is no line end.
pub open spec fn newline_len(buffer: Seq<char>, i: int) -> int {
    if 0 <= i && i + 1 < buffer.len() && buffer[i] == '\r' && buffer[i + 1] == '\n' {
        2
    } else if 0 <= i < buffer.len() && buffer[i] == '\n' {
        1
    } else {
        0
    }
}

/// The index of the first line end at or after `i`, or the length of the
/// text when no line end follows.
pub open spec fn line_end(buffer: Seq<char>, i: int) -> int
    decreases buffer.len() - i,
{
    if 0 <= i < buffer.len() && newline_len(buffer, i) == 0 {
        line_end(buffer, i + 1)
    } else {
        i
    }
}

/// Where the spaces and the comment that start at `i` end.
pub open spec fn comment_end(buffer: Seq<char>, i: int) -> int {
    let s = spaces_end(buffer, i);
    if 0 <= s < buffer.len() && buffer[s] == '#' {
        line_end(buffer, s + 1)
    } else {
        s
    }
}

/// Where the line terminator that starts at `i` ends: after spaces, an
/// optional comment, and a line end or the end of the text. `None` when
/// something else follows the spaces and the comment.
pub open spec fn line_terminator_end(buffer: Seq<char>, i: int) -> Option<int> {
    let c = comment_end(buffer, i);
    if c >= buffer.len() {
        Some(c)
    } else if newline_len(buffer, c) > 0 {
        Some(c + newline_len(buffer, c))
    } else {
        None
    }
}

/// Where the line terminators that start at `i` end.
pub open spec fn line_terminators_end(buffer: Seq<char>, i: int) -> int
    decreases buffer.len() - i,
{
    if 0 <= i < buffer.len() {
        match line_terminator_end(buffer, i) {
            Some(j) => if i < j <= buffer.len() {
                line_terminators_end(buffer, j)
            } else {
                i
            },
            None => i,
        }
    } else {
        i
    }
}

pub proof fn lemma_spaces_end(buffer: Seq<char>, i: int)
    requires
        0 <= i <= buffer.len(),
    ensures
        i <= spaces_end(buffer, i) <= buffer.len(),
    decreases buffer.len() - i,
{
    if i < buffer.len() && is_space(buffer[i]) {
        lemma_spaces_end(buffer, i + 1);
    }
}

pub proof fn lemma_line_end(buffer: Seq<char>, i: int)
    requires
        0 <= i <= buffer.len(),
    ensures
        i <= line_end(buffer, i) <= buffer.len(),
    decreases buffer.len() - i,
{
    if i < buffer.len() && newline_len(buffer, i) == 0 {
        lemma_line_end(buffer, i + 1);
    }
}

/// What every rule keeps: the reader goes on in the same text, and after a
/// failure that leaves room for another rule it is back where it was.
pub open spec fn backtracks<T>(before: &Reader, after: &Reader, r: ParseResult<T>) -> bool {
    &&& after.follows(before)
    &&& (r matches Err(e) ==> (e.recoverable ==> after.state == before.state))
}

/// What a rule of the grammar does at a place of a text: it reads up to a
/// cursor, or it fails.
pub enum Outcome {
    Done(int),
    Failed(ErrorView),
}

/// The failure of a rule.
pub open spec fn fail(pos: Pos, recoverable: bool, inner: ParseErrorView) -> Outcome {
    Outcome::Failed(ErrorView { pos, recoverable, inner })
}

/// The cause of a failure for want of `value`.
pub open spec fn expecting(value: Seq<char>) -> ParseErrorView {
    ParseErrorView::Expecting { value }
}

impl Outcome {
    /// The same outcome, with a failure closed to any other rule.
    pub open spec fn fatal(self) -> Outcome {
        match self {
            Outcome::Done(j) => Outcome::Done(j),
            Outcome::Failed(e) => Outcome::Failed(e.fatal()),
        }
    }

    /// The same outcome, with a failure open to another rule.
    pub open spec fn recoverable(self) -> Outcome {
        match self {
            Outcome::Done(j) => Outcome::Done(j),
            Outcome::Failed(e) => Outcome::Failed(e.recoverable()),
        }
    }
}

/// What a parsing function did: where it left the reader, or how it failed.
pub open spec fn outcome<T>(after: &Reader, r: ParseResult<T>) -> Outcome {
    match r {
        Ok(_) => Outcome::Done(after.state.cursor as int),
        Err(e) => Outcome::Failed(e@),
    }
}

/// What every parsing function promises: it does what its rule of the
/// grammar says, and after a failure that leaves room for another rule the
/// reader is back where it was.
pub open spec fn parsed<T>(
    before: &Reader,
    after: &Reader,
    r: ParseResult<T>,
    rule: Outcome,
) -> bool {
    backtracks(before, after, r) && outcome(after, r) == rule
}

/// The rule of `zero_or_more_spaces`: every space and tab at the cursor.
pub open spec fn zero_or_more_spaces_at(src: Source, i: int) -> Outcome {
    Outcome::Done(spaces_end(src.text, i))
}

/// The rule of `one_or_more_spaces`: every space and tab at the cursor, one
/// at least.
pub open spec fn one_or_more_spaces_at(src: Source, i: int) -> Outcome {
    if spaces_end(src.text, i) > i {
        Outcome::Done(spaces_end(src.text, i))
    } else {
        fail(src.pos(i), false, ParseErrorView::Space)
    }
}

/// The rule of `literal`: the text `s`, or a final failure.
pub open spec fn literal_at(src: Source, i: int, s: Seq<char>) -> Outcome {
    if i < src.len() && has_literal(src.text, i, s) {
        Outcome::Done(i + s.len())
    } else {
        fail(src.pos(i), false, expecting(s))
    }
}

/// The rule of `try_literal`: the text `s`, or a failure that leaves room
/// for another rule.
pub open spec fn try_literal_at(src: Source, i: int, s: Seq<char>) -> Outcome {
    literal_at(src, i, s).recoverable()
}

/// The rule of `try_literals`: the text `s1`, else the text `s2`.
pub open spec fn try_literals_at(src: Source, i: int, s1: Seq<char>, s2: Seq<char>) -> Outcome {
    if try_literal_at(src, i, s1) is Done {
        try_literal_at(src, i, s1)
    } else if try_literal_at(src, i, s2) is Done {
        try_literal_at(src, i, s2)
    } else {
        fail(src.pos(i), true, expecting(s1 + seq!['|'] + s2))
    }
}

/// The rule of `newline`: a line end.
pub open spec fn newline_at(src: Source, i: int) -> Outcome {
    if newline_len(src.text, i) > 0 {
        Outcome::Done(i + newline_len(src.text, i))
    } else {
        fail(src.pos(i), false, expecting("newline"@))
    }
}

/// The rule of `comment`: a hash sign and the rest of the line.
pub open spec fn comment_at(src: Source, i: int) -> Outcome {
    if 0 <= i < src.len() && src.text[i] == '#' {
        Outcome::Done(line_end(src.text, i + 1))
    } else {
        fail(src.pos(i), true, expecting("#"@))
    }
}

/// The rule of `line_terminator`: spaces, an optional comment, and a line
/// end or the end of the text.
pub open spec fn line_terminator_at(src: Source, i: int) -> Outcome {
    match line_terminator_end(src.text, i) {
        Some(j) => Outcome::Done(j),
        None => fail(src.pos(comment_end(src.text, i)), false, expecting("line_terminator"@)),
    }
}

/// The rule of `optional_line_terminators`: every line terminator at the
/// cursor.
pub open spec fn optional_line_terminators_at(src: Source, i: int) -> Outcome {
    Outcome::Done(line_terminators_end(src.text, i))
}

/// The rule of `eof`: nothing is left to read.
pub open spec fn eof_at(src: Source, i: int) -> Outcome {
    if i == src.len() {
        Outcome::Done(i)
    } else {
        fail(src.pos(i), false, expecting("eof"@))
    }
}

/// What the blanks between the indices `from` and `to` say.
pub open spec fn blank_at(src: Source, from: int, to: int) -> BlankSource {
    BlankSource {
        text: src.text.subrange(from, to),
        span: SourceInfo { start: src.pos(from), end: src.pos(to) },
    }
}

/// What the end of the line that starts at `i` says.
#[verifier::opaque]
pub open spec fn line_end_source_at(src: Source, i: int) -> LineEndSource {
    let s = spaces_end(src.text, i);
    let c = comment_end(src.text, i);
    LineEndSource {
        space: blank_at(src, i, s),
        comment: if c > s {
            Some(src.text.subrange(s + 1, c))
        } else {
            None
        },
        newline: blank_at(src, c, line_terminator_end(src.text, i)->Some_0),
    }
}

/// What the line ends from index `i` on say, one by one.
#[verifier::opaque]
pub open spec fn line_end_sources_at(src: Source, i: int) -> Seq<LineEndSource>
    decreases src.len() - i,
{
    if 0 <= i < src.len() {
        match line_terminator_end(src.text, i) {
            Some(j) => if i < j <= src.len() {
                seq![line_end_source_at(src, i)] + line_end_sources_at(src, j)
            } else {
                Seq::empty()
            },
            None => Seq::empty(),
        }
    } else {
        Seq::empty()
    }
}

/// After a line end, the line ends are that one and those that follow it.
pub proof fn lemma_line_end_step(src: Source, i: int, j: int)
    requires
        0 <= i < src.len(),
        i < j <= src.len(),
        line_terminator_end(src.text, i) == Some(j),
    ensures
        line_end_sources_at(src, i) == seq![line_end_source_at(src, i)] + line_end_sources_at(
            src,
            j,
        ),
{
    reveal(line_end_sources_at);
}

/// Where no line end follows, there are no line ends.
pub proof fn lemma_line_end_stop(src: Source, i: int)
    requires
        i >= src.len() || line_terminator_end(src.text, i) is None,
    ensures
        line_end_sources_at(src, i) == Seq::<LineEndSource>::empty(),
{
    reveal(line_end_sources_at);
}

/// Whether `w` is the text between the cursors `from` and `to` of the reader.
pub open spec fn is_span(reader: &Reader, w: Whitespace, from: int, to: int) -> bool {
    &&& w.value@ == reader.text(from, to)
    &&& w.source_info == SourceInfo { start: reader.pos_of(from), end: reader.pos_of(to) }
}

/// Reads the spaces and tabs at the cursor: none, one or many.
pub fn zero_or_more_spaces(reader: &mut Reader) -> (r: ParseResult<Whitespace>)
    requires
        old(reader).wf(),
    ensures
        parsed(
            old(reader),
            final(reader),
            r,
            zero_or_more_spaces_at(old(reader).source(), old(reader).state.cursor as int),
        ),
        r is Ok,
        r matches Ok(w) ==> is_span(
            old(reader),
            w,
            old(reader).state.cursor as int,
            final(reader).state.cursor as int,
        ),
{
    let start = reader.state;
    loop
        invariant
            reader.follows(old(reader)),
            start == old(reader).state,
            spaces_end(reader.buffer@, start.cursor as int) == spaces_end(
                reader.buffer@,
                reader.state.cursor as int,
            ),
        ensures
            spaces_end(reader.buffer@, reader.state.cursor as int) == reader.state.cursor,
        decreases reader.buffer@.len() - reader.state.cursor,
    {
        match reader.peek() {
            Some(c) => {
                if c == ' ' || c == '\t' {
                    reader.read();
                } else {
                    break ;
                }
            },
            None => {
                break ;
            },
        }
    }
    Ok(
        Whitespace {
            value: reader.peek_back(start.cursor),
            source_info: SourceInfo::new(start.pos, reader.state.pos),
        },
    )
}

/// Reads the spaces and tabs at the cursor: one at least.
pub fn one_or_more_spaces(reader: &mut Reader) -> (r: ParseResult<Whitespace>)
    requires
        old(reader).wf(),
    ensures
        parsed(
            old(reader),
            final(reader),
            r,
            one_or_more_spaces_at(old(reader).source(), old(reader).state.cursor as int),
        ),
        r matches Ok(w) ==> is_span(
            old(reader),
            w,
            old(reader).state.cursor as int,
            final(reader).state.cursor as int,
        ),
{
    let start = reader.state;
    match reader.peek() {
        Some(c) => {
            if c == ' ' || c == '\t' {
                proof {
                    lemma_spaces_end(reader.buffer@, reader.state.cursor + 1);
                }
                zero_or_more_spaces(reader)
            } else {
                reader.read();
                Err(Error::new(start.pos, false, ParseError::Space))
            }
        },
        None => Err(Error::new(start.pos, false, ParseError::Space)),
    }
}

/// Reads the literal `s`. A failure is final: the cursor stays where the
/// text stopped matching.
pub fn literal(s: &str, reader: &mut Reader) -> (r: ParseResult<()>)
    requires
        old(reader).wf(),
    ensures
        parsed(
            old(reader),
            final(reader),
            r,
            literal_at(old(reader).source(), old(reader).state.cursor as int, s@),
        ),
{
    let start = reader.state;
    if reader.is_eof() {
        return Err(Error::new(start.pos, false, ParseError::Expecting { value: s.to_string() }));
    }
    let expected = chars_of(s);
    let mut i: usize = 0;
    while i < expected.len()
        invariant
            i <= expected.len(),
            expected@ == s@,
            old(reader).wf(),
            reader.follows(old(reader)),
            start == old(reader).state,
            start.cursor < reader.buffer@.len(),
            reader.state.cursor == start.cursor + i,
            reader.buffer@.subrange(start.cursor as int, start.cursor + i) == expected@.take(
                i as int,
            ),
        decreases expected.len() - i,
    {
        match reader.read() {
            None => {
                return Err(
                    Error::new(start.pos, false, ParseError::Expecting { value: s.to_string() }),
                );
            },
            Some(x) => {
                if x != expected[i] {
                    proof {
                        if start.cursor + expected@.len() <= reader.buffer@.len() {
                            assert(reader.buffer@.subrange(
                                start.cursor as int,
                                start.cursor + expected@.len(),
                            )[i as int] == reader.buffer@[start.cursor + i]);
                        }
                    }
                    return Err(
                        Error::new(start.pos, false, ParseError::Expecting { value: s.to_string() }),
                    );
                }
                assert(reader.buffer@.subrange(start.cursor as int, start.cursor + i + 1)
                    == reader.buffer@.subrange(start.cursor as int, start.cursor + i).push(x));
                assert(expected@.take(i + 1) == expected@.take(i as int).push(expected@[i as int]));
            },
        }
        i += 1;
    }
    assert(expected@.take(i as int) == expected@);
    Ok(())
}

/// Reads the literal `s`. On a failure the cursor is back where it was, and
/// another rule may be tried.
pub fn try_literal(s: &str, reader: &mut Reader) -> (r: ParseResult<()>)
    requires
        old(reader).wf(),
    ensures
        parsed(
            old(reader),
            final(reader),
            r,
            try_literal_at(old(reader).source(), old(reader).state.cursor as int, s@),
        ),
{
    let save_state = reader.state;
    match literal(s, reader) {
        Ok(_) => Ok(()),
        Err(e) => {
            reader.restore(save_state);
            Err(e.recoverable())
        },
    }
}

/// Reads one of two literals, the first if both are there, and says which.
pub fn try_literals(s1: &str, s2: &str, reader: &mut Reader) -> (r: ParseResult<bool>)
    requires
        old(reader).wf(),
    ensures
        parsed(
            old(reader),
            final(reader),
            r,
            try_literals_at(old(reader).source(), old(reader).state.cursor as int, s1@, s2@),
        ),
        r matches Ok(first) ==> first == (try_literal_at(
            old(reader).source(),
            old(reader).state.cursor as int,
            s1@,
        ) is Done),
{
    let start = reader.state;
    match try_literal(s1, reader) {
        Ok(_) => Ok(true),
        Err(_) => match try_literal(s2, reader) {
            Ok(_) => Ok(false),
            Err(_) => {
                let both = crate::text::concat(s1, "|");
                let both = crate::text::concat(both.as_str(), s2);
                proof {
                    reveal_strlit("|");
                    assert("|"@ =~= seq!['|']);
                }
                Err(Error::new(start.pos, true, ParseError::Expecting { value: both }))
            },
        },
    }
}

/// Reads a line end: a line feed, with or without a carriage return before.
pub fn newline(reader: &mut Reader) -> (r: ParseResult<Whitespace>)
    requires
        old(reader).wf(),
    ensures
        parsed(
            old(reader),
            final(reader),
            r,
            newline_at(old(reader).source(), old(reader).state.cursor as int),
        ),
        r matches Ok(w) ==> is_span(
            old(reader),
            w,
            old(reader).state.cursor as int,
            final(reader).state.cursor as int,
        ),
{
    let start = reader.state;
    proof {
        reveal_strlit("\r\n");
        reveal_strlit("\n");
    }
    match try_literal("\r\n", reader) {
        Ok(_) => {
            assert(reader.buffer@.subrange(start.cursor as int, start.cursor + 2)[0] == '\r');
            assert(reader.buffer@.subrange(start.cursor as int, start.cursor + 2)[1] == '\n');
            Ok(
                Whitespace {
                    value: reader.peek_back(start.cursor),
                    source_info: SourceInfo::new(start.pos, reader.state.pos),
                },
            )
        },
        Err(_) => {
            proof {
                if newline_len(reader.buffer@, start.cursor as int) == 2 {
                    assert(reader.buffer@.subrange(start.cursor as int, start.cursor + 2)
                        =~= "\r\n"@);
                }
            }
            match literal("\n", reader) {
                Ok(_) => {
                    assert(reader.buffer@.subrange(start.cursor as int, start.cursor + 1)[0] == '\n');
                    Ok(
                        Whitespace {
                            value: reader.peek_back(start.cursor),
                            source_info: SourceInfo::new(start.pos, reader.state.pos),
                        },
                    )
                },
                Err(_) => {
                    proof {
                        if newline_len(reader.buffer@, start.cursor as int) == 1 {
                            assert(reader.buffer@.subrange(start.cursor as int, start.cursor + 1)
                                =~= "\n"@);
                        }
                    }
                    Err(
                        Error::new(
                            start.pos,
                            false,
                            ParseError::Expecting { value: "newline".to_string() },
                        ),
                    )
                },
            }
        },
    }
}

/// Whether a line end starts at the cursor.
fn at_newline(reader: &Reader) -> (r: bool)
    requires
        reader.wf(),
    ensures
        r == (newline_len(reader.buffer@, reader.state.cursor as int) > 0),
{
    let i = reader.state.cursor;
    if i < reader.buffer.len() {
        let c = reader.buffer[i];
        c == '\n' || (c == '\r' && i + 1 < reader.buffer.len() && reader.buffer[i + 1] == '\n')
    } else {
        false
    }
}

/// Reads a comment: a hash sign and the rest of the line.
pub fn comment(reader: &mut Reader) -> (r: ParseResult<Comment>)
    requires
        old(reader).wf(),
    ensures
        parsed(
            old(reader),
            final(reader),
            r,
            comment_at(old(reader).source(), old(reader).state.cursor as int),
        ),
        r matches Ok(c) ==> c.value@ == old(reader).text(
            old(reader).state.cursor + 1,
            final(reader).state.cursor as int,
        ),
{
    proof {
        reveal_strlit("#");
    }
    let begin = reader.state.cursor;
    match try_literal("#", reader) {
        Ok(_) => {
            assert(reader.buffer@.subrange(begin as int, begin + 1)[0] == '#');
        },
        Err(e) => {
            proof {
                if begin < reader.buffer@.len() && reader.buffer@[begin as int] == '#' {
                    assert(reader.buffer@.subrange(begin as int, begin + 1) =~= "#"@);
                }
            }
            return Err(e);
        },
    }
    let start = reader.state.cursor;
    loop
        invariant
            reader.follows(old(reader)),
            start == old(reader).state.cursor + 1,
            start <= reader.state.cursor,
            line_end(reader.buffer@, start as int) == line_end(
                reader.buffer@,
                reader.state.cursor as int,
            ),
        ensures
            line_end(reader.buffer@, reader.state.cursor as int) == reader.state.cursor,
        decreases reader.buffer@.len() - reader.state.cursor,
    {
        if reader.is_eof() {
            break ;
        }
        if at_newline(reader) {
            break ;
        }
        reader.read();
    }
    Ok(Comment { value: reader.peek_back(start) })
}

/// Whether `lt` is the line terminator that the reader holds at `from`,
/// ending at `to`.
pub open spec fn is_line_terminator(reader: &Reader, lt: LineTerminator, from: int, to: int) -> bool {
    let s = spaces_end(reader.buffer@, from);
    let c = comment_end(reader.buffer@, from);
    &&& line_terminator_end(reader.buffer@, from) == Some(to)
    &&& is_span(reader, lt.space0, from, s)
    &&& is_span(reader, lt.newline, c, to)
    &&& match lt.comment {
        Some(comment) => c > s && comment.value@ == reader.text(s + 1, c),
        None => c == s,
    }
}

/// Reads the end of a line: spaces, an optional comment, and a line end or
/// the end of the text.
pub fn line_terminator(reader: &mut Reader) -> (r: ParseResult<LineTerminator>)
    requires
        old(reader).wf(),
    ensures
        parsed(
            old(reader),
            final(reader),
            r,
            line_terminator_at(old(reader).source(), old(reader).state.cursor as int),
        ),
        r matches Ok(lt) ==> {
            &&& line_end_source(lt) == line_end_source_at(
                old(reader).source(),
                old(reader).state.cursor as int,
            )
            &&& is_line_terminator(
                old(reader),
                lt,
                old(reader).state.cursor as int,
                final(reader).state.cursor as int,
            )
            &&& (old(reader).state.cursor < old(reader).buffer@.len()
                ==> final(reader).state.cursor > old(reader).state.cursor)
        },
{
    proof {
        reveal(line_end_source_at);
        lemma_spaces_end(reader.buffer@, reader.state.cursor as int);
    }
    let space0 = match zero_or_more_spaces(reader) {
        Ok(w) => w,
        Err(e) => {
            return Err(e);
        },
    };
    proof {
        if reader.state.cursor < reader.buffer@.len() {
            lemma_line_end(reader.buffer@, reader.state.cursor + 1);
        }
    }
    let comment = match comment(reader) {
        Ok(c) => Some(c),
        Err(_) => None,
    };
    let nl = if reader.is_eof() {
        let w = Whitespace {
            value: "".to_string(),
            source_info: SourceInfo::new(reader.state.pos, reader.state.pos),
        };
        proof {
            reveal_strlit("");
            assert(w.value@ =~= reader.text(reader.state.cursor as int, reader.state.cursor as int));
        }
        w
    } else {
        match newline(reader) {
            Ok(r) => r,
            Err(e) => {
                return Err(
                    Error::new(
                        e.pos,
                        false,
                        ParseError::Expecting { value: "line_terminator".to_string() },
                    ),
                );
            },
        }
    };
    Ok(LineTerminator { space0, comment, newline: nl })
}

/// Reads the line terminators at the cursor: none, one or many. Stops at the
/// end of the text.
pub fn optional_line_terminators(reader: &mut Reader) -> (r: ParseResult<Vec<LineTerminator>>)
    requires
        old(reader).wf(),
    ensures
        parsed(
            old(reader),
            final(reader),
            r,
            optional_line_terminators_at(old(reader).source(), old(reader).state.cursor as int),
        ),
        r matches Ok(v) && line_end_sources(v@) == line_end_sources_at(
            old(reader).source(),
            old(reader).state.cursor as int,
        ),
{
    let mut v: Vec<LineTerminator> = Vec::new();
    proof {
        assert(line_end_sources(v@) + line_end_sources_at(
            reader.source(),
            reader.state.cursor as int,
        ) =~= line_end_sources_at(reader.source(), reader.state.cursor as int));
    }
    loop
        invariant
            reader.follows(old(reader)),
            line_terminators_end(old(reader).buffer@, old(reader).state.cursor as int)
                == line_terminators_end(reader.buffer@, reader.state.cursor as int),
            line_end_sources(v@) + line_end_sources_at(
                reader.source(),
                reader.state.cursor as int,
            ) == line_end_sources_at(old(reader).source(), old(reader).state.cursor as int),
        ensures
            reader.follows(old(reader)),
            line_terminators_end(reader.buffer@, reader.state.cursor as int)
                == reader.state.cursor,
            line_end_sources(v@) == line_end_sources_at(
                old(reader).source(),
                old(reader).state.cursor as int,
            ),
        decreases reader.buffer@.len() - reader.state.cursor,
    {
        let initial_state = reader.state;
        let ghost at = reader.state.cursor as int;
        let ghost rest = line_end_sources_at(reader.source(), at);
        let ghost prior = v@;
        if reader.is_eof() {
            proof {
                lemma_line_end_stop(reader.source(), at);
                assert(line_end_sources(v@) + rest =~= line_end_sources(v@));
            }
            break ;
        }
        match line_terminator(reader) {
            Ok(r) => {
                v.push(r);
                proof {
                    lemma_line_end_step(reader.source(), at, reader.state.cursor as int);
                    assert(line_end_sources(v@) =~= line_end_sources(prior).push(
                        line_end_source(r),
                    ));
                    assert(line_end_sources(v@) + line_end_sources_at(
                        reader.source(),
                        reader.state.cursor as int,
                    ) =~= line_end_sources(prior) + rest);
                }
            },
            Err(_) => {
                reader.restore(initial_state);
                proof {
                    lemma_line_end_stop(reader.source(), at);
                    assert(line_end_sources(v@) + rest =~= line_end_sources(v@));
                }
                break ;
            },
        }
    }
    Ok(v)
}

/// Checks that the whole text has been read.
pub fn eof(reader: &mut Reader) -> (r: ParseResult<()>)
    requires
        old(reader).wf(),
    ensures
        parsed(
            old(reader),
            final(reader),
            r,
            eof_at(old(reader).source(), old(reader).state.cursor as int),
        ),
        final(reader).state == old(reader).state,
{
    if reader.is_eof() {
        Ok(())
    } else {
        Err(
            Error::new(reader.state.pos, false, ParseError::Expecting { value: "eof".to_string() }),
        )
    }
}

} // verus!
