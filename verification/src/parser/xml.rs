//! XML bodies, kept as they were written.

use vstd::prelude::*;

use crate::parser::error::{Error, ParseError, ParseErrorView};
use crate::parser::json::is_blank;
use crate::parser::primitives::{expecting, fail, parsed, Outcome, ParseResult};
use crate::parser::reader::{Reader, Source};

verus! {

/// Whether a name of XML may start with the character.
pub open spec fn is_name_start(c: char) -> bool {
    ('a' <= c && c <= 'z') || ('A' <= c && c <= 'Z') || c == '_' || c == ':'
}

/// Whether a name of XML may start with the character.
fn name_start(c: char) -> (r: bool)
    ensures
        r == is_name_start(c),
{
    ('a' <= c && c <= 'z') || ('A' <= c && c <= 'Z') || c == '_' || c == ':'
}

/// The rule of the rest of a tag: everything up to and including the next
/// `>` that stands outside quotes, and whether a slash stands right before
/// it. `quote` is the quote that is open at `i`, and `slash` says whether
/// the character before `i` is a slash outside quotes.
pub open spec fn tag_rest_at(src: Source, i: int, quote: Option<char>, slash: bool) -> (
    Outcome,
    bool,
)
    decreases src.len() - i,
{
    if !(0 <= i < src.len()) {
        (fail(src.pos(i), false, ParseErrorView::Xml), false)
    } else {
        match quote {
            Some(q) => tag_rest_at(
                src,
                i + 1,
                if src.text[i] == q {
                    None
                } else {
                    quote
                },
                slash,
            ),
            None => if src.text[i] == '>' {
                (Outcome::Done(i + 1), slash)
            } else {
                tag_rest_at(
                    src,
                    i + 1,
                    if src.text[i] == '"' || src.text[i] == '\'' {
                        Some(src.text[i])
                    } else {
                        None
                    },
                    src.text[i] == '/',
                )
            },
        }
    }
}

/// The rule of an XML document from index `i` on: declarations, comments
/// and blanks, then one element with all that it holds, up to the tag that
/// closes it. `depth` is the number of elements that are open at `i`, and
/// `opened` says whether the element of the document has been opened.
pub open spec fn document_at(src: Source, i: int, depth: nat, opened: bool) -> Outcome
    decreases src.len() - i,
{
    if opened && depth == 0 {
        Outcome::Done(i)
    } else if !(0 <= i < src.len()) {
        fail(src.pos(i), false, ParseErrorView::Xml)
    } else if src.text[i] != '<' {
        if depth == 0 && !is_blank(src.text[i]) {
            fail(src.pos(i + 1), false, ParseErrorView::Xml)
        } else {
            document_at(src, i + 1, depth, opened)
        }
    } else if i + 1 >= src.len() {
        fail(src.pos(i + 1), false, ParseErrorView::Xml)
    } else if src.text[i + 1] == '/' && depth == 0 {
        fail(src.pos(i + 1), false, ParseErrorView::Xml)
    } else if src.text[i + 1] != '?' && src.text[i + 1] != '!' && src.text[i + 1] != '/'
        && !is_name_start(src.text[i + 1]) {
        fail(src.pos(i + 1), false, ParseErrorView::Xml)
    } else {
        match tag_rest_at(src, i + 1, None, false) {
            (Outcome::Done(j), closed) => if !(i < j <= src.len()) {
                Outcome::Done(i)
            } else if src.text[i + 1] == '?' || src.text[i + 1] == '!' {
                document_at(src, j, depth, opened)
            } else if src.text[i + 1] == '/' {
                document_at(src, j, (depth - 1) as nat, opened)
            } else if closed {
                document_at(src, j, depth, true)
            } else {
                document_at(src, j, depth + 1, true)
            },
            (Outcome::Failed(e), _) => Outcome::Failed(e),
        }
    }
}

/// The rule of `parse`: an XML document, which starts with `<`.
pub open spec fn xml_at(src: Source, i: int) -> Outcome {
    if 0 <= i < src.len() && src.text[i] == '<' {
        document_at(src, i, 0, false)
    } else {
        fail(src.pos(i), true, expecting("<"@))
    }
}

/// Reads up to and including the next `>` that stands outside quotes, and
/// says whether a slash stands right before it.
fn tag_rest(reader: &mut Reader) -> (r: ParseResult<bool>)
    requires
        old(reader).wf(),
    ensures
        parsed(
            old(reader),
            final(reader),
            r,
            tag_rest_at(old(reader).source(), old(reader).state.cursor as int, None, false).0,
        ),
        r matches Err(e) ==> !e.recoverable,
        r matches Ok(closed) ==> {
            &&& final(reader).state.cursor > old(reader).state.cursor
            &&& closed == tag_rest_at(
                old(reader).source(),
                old(reader).state.cursor as int,
                None,
                false,
            ).1
        },
{
    let mut quote: Option<char> = None;
    let mut slash = false;
    loop
        invariant_except_break
            tag_rest_at(old(reader).source(), old(reader).state.cursor as int, None, false)
                == tag_rest_at(reader.source(), reader.state.cursor as int, quote, slash),
        invariant
            reader.follows(old(reader)),
            old(reader).wf(),
        ensures
            reader.follows(old(reader)),
            reader.state.cursor > old(reader).state.cursor,
            tag_rest_at(old(reader).source(), old(reader).state.cursor as int, None, false) == (
                Outcome::Done(reader.state.cursor as int),
                slash,
            ),
        decreases reader.buffer@.len() - reader.state.cursor,
    {
        match reader.read() {
            None => {
                return Err(Error::new(reader.state.pos, false, ParseError::Xml));
            },
            Some(c) => {
                match quote {
                    Some(q) => {
                        if c == q {
                            quote = None;
                        }
                    },
                    None => {
                        if c == '>' {
                            break ;
                        }
                        if c == '"' || c == '\'' {
                            quote = Some(c);
                        }
                        slash = c == '/';
                    },
                }
            },
        }
    }
    Ok(slash)
}

/// Reads an XML document: an optional declaration, then one element with
/// all that it holds, up to the tag that closes it. Text that does not
/// start with `<` is left to another rule.
pub fn parse(reader: &mut Reader) -> (r: ParseResult<String>)
    requires
        old(reader).wf(),
    ensures
        parsed(
            old(reader),
            final(reader),
            r,
            xml_at(old(reader).source(), old(reader).state.cursor as int),
        ),
        r matches Ok(s) ==> {
            &&& final(reader).state.cursor > old(reader).state.cursor
            &&& s@ == old(reader).text(
                old(reader).state.cursor as int,
                final(reader).state.cursor as int,
            )
        },
{
    let start = reader.state;
    match reader.peek() {
        Some(c) => {
            if c != '<' {
                return Err(
                    Error::new(start.pos, true, ParseError::Expecting { value: "<".to_string() }),
                );
            }
        },
        None => {
            return Err(Error::new(start.pos, true, ParseError::Expecting { value: "<".to_string() }));
        },
    }
    let mut depth: usize = 0;
    let mut opened = false;
    loop
        invariant_except_break
            document_at(old(reader).source(), old(reader).state.cursor as int, 0, false)
                == document_at(reader.source(), reader.state.cursor as int, depth as nat, opened),
        invariant
            reader.follows(old(reader)),
            old(reader).wf(),
            start == old(reader).state,
            start.cursor < reader.buffer@.len(),
            reader.buffer@[start.cursor as int] == '<',
            opened ==> reader.state.cursor > start.cursor,
            depth <= reader.state.cursor - start.cursor,
        ensures
            reader.follows(old(reader)),
            reader.state.cursor > start.cursor,
            document_at(old(reader).source(), old(reader).state.cursor as int, 0, false)
                == Outcome::Done(reader.state.cursor as int),
        decreases reader.buffer@.len() - reader.state.cursor,
    {
        if opened && depth == 0 {
            break ;
        }
        match reader.read() {
            None => {
                return Err(Error::new(reader.state.pos, false, ParseError::Xml));
            },
            Some(c) => {
                if c != '<' {
                    if depth == 0 && !(c == ' ' || c == '\t' || c == '\n' || c == '\r') {
                        return Err(Error::new(reader.state.pos, false, ParseError::Xml));
                    }
                } else {
                    match reader.peek() {
                        None => {
                            return Err(Error::new(reader.state.pos, false, ParseError::Xml));
                        },
                        Some(n) => {
                            if n == '?' || n == '!' {
                                match tag_rest(reader) {
                                    Ok(_) => {},
                                    Err(e) => {
                                        return Err(e);
                                    },
                                }
                            } else if n == '/' {
                                if depth == 0 {
                                    return Err(
                                        Error::new(reader.state.pos, false, ParseError::Xml),
                                    );
                                }
                                match tag_rest(reader) {
                                    Ok(_) => {},
                                    Err(e) => {
                                        return Err(e);
                                    },
                                }
                                depth -= 1;
                            } else {
                                if !name_start(n) {
                                    return Err(
                                        Error::new(reader.state.pos, false, ParseError::Xml),
                                    );
                                }
                                let closed = match tag_rest(reader) {
                                    Ok(closed) => closed,
                                    Err(e) => {
                                        return Err(e);
                                    },
                                };
                                opened = true;
                                if !closed {
                                    depth += 1;
                                }
                            }
                        },
                    }
                }
            },
        }
    }
    let text = reader.peek_back(start.cursor);
    Ok(text)
}

} // verus!
