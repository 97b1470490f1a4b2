//! Filters: what a capture or an assert does to the value of its query.

use vstd::prelude::*;

use crate::ast::{Filter, FilterValue, SourceInfo, Template, Whitespace};
use crate::decimal::{digit_values, nat_of};
use crate::filters::{filter_kind, filter_source, filter_sources, FilterKind, FilterSource};
use crate::parser::error::{Error, ParseError};
use crate::parser::number::{natural, natural_at};
use crate::parser::primitives::{
    expecting, fail, one_or_more_spaces, one_or_more_spaces_at, parsed, spaces_end, try_literal,
    try_literal_at, zero_or_more_spaces, Outcome, ParseResult,
};
use crate::parser::query::{pattern_source_at, regex_value, regex_value_at};
use crate::parser::reader::{Reader, Source};
use crate::parser::string::{delimited_template_at, quoted_template};

verus! {

/// The rule of the operand of a filter that takes a quoted string: spaces,
/// then the string.
pub open spec fn quoted_operand_at(src: Source, i: int) -> Outcome {
    match one_or_more_spaces_at(src, i) {
        Outcome::Done(a) => delimited_template_at(src, a, '"').fatal(),
        Outcome::Failed(e) => Outcome::Failed(e),
    }
}

/// The rule of the kind of a filter and its operands: the kinds are tried
/// in the order in which they stand here.
pub open spec fn filter_value_at(src: Source, i: int) -> Outcome {
    if try_literal_at(src, i, "count"@) is Done {
        try_literal_at(src, i, "count"@)
    } else if try_literal_at(src, i, "decode"@) is Done {
        quoted_operand_at(src, i + "decode"@.len())
    } else if try_literal_at(src, i, "format"@) is Done {
        quoted_operand_at(src, i + "format"@.len())
    } else if try_literal_at(src, i, "htmlEscape"@) is Done {
        try_literal_at(src, i, "htmlEscape"@)
    } else if try_literal_at(src, i, "htmlUnescape"@) is Done {
        try_literal_at(src, i, "htmlUnescape"@)
    } else if try_literal_at(src, i, "jsonpath"@) is Done {
        quoted_operand_at(src, i + "jsonpath"@.len())
    } else if try_literal_at(src, i, "nth"@) is Done {
        match one_or_more_spaces_at(src, i + "nth"@.len()) {
            Outcome::Done(a) => natural_at(src, a).fatal(),
            Outcome::Failed(e) => Outcome::Failed(e),
        }
    } else if try_literal_at(src, i, "regex"@) is Done {
        match one_or_more_spaces_at(src, i + "regex"@.len()) {
            Outcome::Done(a) => regex_value_at(src, a),
            Outcome::Failed(e) => Outcome::Failed(e),
        }
    } else if try_literal_at(src, i, "replace"@) is Done {
        match one_or_more_spaces_at(src, i + "replace"@.len()) {
            Outcome::Done(a) => match regex_value_at(src, a) {
                Outcome::Done(b) => quoted_operand_at(src, b),
                Outcome::Failed(e) => Outcome::Failed(e),
            },
            Outcome::Failed(e) => Outcome::Failed(e),
        }
    } else if try_literal_at(src, i, "split"@) is Done {
        quoted_operand_at(src, i + "split"@.len())
    } else if try_literal_at(src, i, "toInt"@) is Done {
        try_literal_at(src, i, "toInt"@)
    } else if try_literal_at(src, i, "urlDecode"@) is Done {
        try_literal_at(src, i, "urlDecode"@)
    } else if try_literal_at(src, i, "urlEncode"@) is Done {
        try_literal_at(src, i, "urlEncode"@)
    } else if try_literal_at(src, i, "xpath"@) is Done {
        quoted_operand_at(src, i + "xpath"@.len())
    } else {
        fail(src.pos(i), true, expecting("filter"@))
    }
}

/// The quoted string that stands after the spaces at `k`, as it was
/// written.
pub open spec fn operand_text_at(src: Source, k: int) -> Seq<char> {
    src.text.subrange(
        spaces_end(src.text, k),
        delimited_template_at(src, spaces_end(src.text, k), '"')->Done_0,
    )
}

/// The number that stands after the spaces at `k`.
pub open spec fn operand_number_at(src: Source, k: int) -> u64 {
    nat_of(
        digit_values(
            src.text.subrange(
                spaces_end(src.text, k),
                natural_at(src, spaces_end(src.text, k))->Done_0,
            ),
        ),
    ) as u64
}

/// The kind of the filter that starts at `i`, with its operands.
#[verifier::opaque]
pub open spec fn filter_kind_at(src: Source, i: int) -> FilterKind {
    if try_literal_at(src, i, "count"@) is Done {
        FilterKind::Count
    } else if try_literal_at(src, i, "decode"@) is Done {
        FilterKind::Decode(operand_text_at(src, i + "decode"@.len()))
    } else if try_literal_at(src, i, "format"@) is Done {
        FilterKind::Format(operand_text_at(src, i + "format"@.len()))
    } else if try_literal_at(src, i, "htmlEscape"@) is Done {
        FilterKind::HtmlEscape
    } else if try_literal_at(src, i, "htmlUnescape"@) is Done {
        FilterKind::HtmlUnescape
    } else if try_literal_at(src, i, "jsonpath"@) is Done {
        FilterKind::JsonPath(operand_text_at(src, i + "jsonpath"@.len()))
    } else if try_literal_at(src, i, "nth"@) is Done {
        FilterKind::Nth(operand_number_at(src, i + "nth"@.len()))
    } else if try_literal_at(src, i, "regex"@) is Done {
        FilterKind::Regex(pattern_source_at(src, spaces_end(src.text, i + "regex"@.len())))
    } else if try_literal_at(src, i, "replace"@) is Done {
        FilterKind::Replace(
            pattern_source_at(src, spaces_end(src.text, i + "replace"@.len())),
            operand_text_at(
                src,
                regex_value_at(src, spaces_end(src.text, i + "replace"@.len()))->Done_0,
            ),
        )
    } else if try_literal_at(src, i, "split"@) is Done {
        FilterKind::Split(operand_text_at(src, i + "split"@.len()))
    } else if try_literal_at(src, i, "toInt"@) is Done {
        FilterKind::ToInt
    } else if try_literal_at(src, i, "urlDecode"@) is Done {
        FilterKind::UrlDecode
    } else if try_literal_at(src, i, "urlEncode"@) is Done {
        FilterKind::UrlEncode
    } else {
        FilterKind::XPath(operand_text_at(src, i + "xpath"@.len()))
    }
}

/// The rule of `filter`.
#[verifier::opaque]
pub open spec fn filter_at(src: Source, i: int) -> Outcome {
    filter_value_at(src, i)
}

/// What the filter that starts at `i` says.
pub open spec fn filter_source_at(src: Source, i: int) -> FilterSource {
    FilterSource {
        kind: filter_kind_at(src, i),
        span: SourceInfo { start: src.pos(i), end: src.pos(filter_at(src, i)->Done_0) },
    }
}

/// What the filters from index `i` on say, one by one.
#[verifier::opaque]
pub open spec fn filter_sources_at(src: Source, i: int) -> Seq<FilterSource>
    decreases src.len() - i,
{
    let s = spaces_end(src.text, i);
    if s <= i {
        Seq::empty()
    } else {
        match filter_at(src, s) {
            Outcome::Done(j) => if s < j <= src.len() {
                seq![filter_source_at(src, s)] + filter_sources_at(src, j)
            } else {
                Seq::empty()
            },
            Outcome::Failed(_) => Seq::empty(),
        }
    }
}

/// After a filter, the filters are that filter and those that follow it.
pub proof fn lemma_filter_step(src: Source, i: int, j: int)
    requires
        spaces_end(src.text, i) > i,
        spaces_end(src.text, i) < j <= src.len(),
        filter_at(src, spaces_end(src.text, i)) == Outcome::Done(j),
    ensures
        filter_sources_at(src, i) == seq![filter_source_at(src, spaces_end(src.text, i))]
            + filter_sources_at(src, j),
{
    reveal(filter_sources_at);
}

/// Where no filter follows, there are no filters.
pub proof fn lemma_filter_end(src: Source, i: int)
    requires
        spaces_end(src.text, i) <= i || filter_at(src, spaces_end(src.text, i)) is Failed,
    ensures
        filter_sources_at(src, i) == Seq::<FilterSource>::empty(),
{
    reveal(filter_sources_at);
}

/// The rule of `filters`: filters, each after one or more spaces, as many as
/// there are.
pub open spec fn filters_at(src: Source, i: int) -> Outcome
    decreases src.len() - i,
{
    let s = spaces_end(src.text, i);
    if s <= i {
        Outcome::Done(i)
    } else {
        match filter_at(src, s) {
            Outcome::Done(j) => if s < j <= src.len() {
                filters_at(src, j)
            } else {
                Outcome::Done(i)
            },
            Outcome::Failed(e) => if e.recoverable {
                Outcome::Done(i)
            } else {
                Outcome::Failed(e)
            },
        }
    }
}

/// Reads the operand of a filter that takes a quoted string: spaces, then
/// the string.
fn quoted_operand(reader: &mut Reader) -> (r: ParseResult<(Whitespace, Template)>)
    requires
        old(reader).wf(),
    ensures
        parsed(
            old(reader),
            final(reader),
            r,
            quoted_operand_at(old(reader).source(), old(reader).state.cursor as int),
        ),
        r matches Ok(o) ==> {
            &&& final(reader).state.cursor > old(reader).state.cursor
            &&& o.1.encoded_spec() == operand_text_at(
                old(reader).source(),
                old(reader).state.cursor as int,
            )
        },
{
    let space0 = match one_or_more_spaces(reader) {
        Ok(w) => w,
        Err(e) => {
            return Err(e);
        },
    };
    let value = match quoted_template(reader) {
        Ok(t) => t,
        Err(e) => {
            return Err(e.fatal());
        },
    };
    Ok((space0, value))
}

/// Reads the kind of a filter and its operands.
fn filter_value(reader: &mut Reader) -> (r: ParseResult<FilterValue>)
    requires
        old(reader).wf(),
    ensures
        parsed(
            old(reader),
            final(reader),
            r,
            filter_value_at(old(reader).source(), old(reader).state.cursor as int),
        ),
        r matches Ok(v) ==> {
            &&& final(reader).state.cursor > old(reader).state.cursor
            &&& filter_kind(v) == filter_kind_at(
                old(reader).source(),
                old(reader).state.cursor as int,
            )
        },
{
    proof {
        reveal(filter_kind_at);
        reveal_strlit("count");
        reveal_strlit("decode");
        reveal_strlit("format");
        reveal_strlit("htmlEscape");
        reveal_strlit("htmlUnescape");
        reveal_strlit("jsonpath");
        reveal_strlit("nth");
        reveal_strlit("regex");
        reveal_strlit("replace");
        reveal_strlit("split");
        reveal_strlit("toInt");
        reveal_strlit("urlDecode");
        reveal_strlit("urlEncode");
        reveal_strlit("xpath");
    }
    let start = reader.state;
    if try_literal("count", reader).is_ok() {
        return Ok(FilterValue::Count);
    }
    if try_literal("decode", reader).is_ok() {
        return match quoted_operand(reader) {
            Ok((space0, encoding)) => Ok(FilterValue::Decode { space0, encoding }),
            Err(e) => Err(e),
        };
    }
    if try_literal("format", reader).is_ok() {
        return match quoted_operand(reader) {
            Ok((space0, fmt)) => Ok(FilterValue::Format { space0, fmt }),
            Err(e) => Err(e),
        };
    }
    if try_literal("htmlEscape", reader).is_ok() {
        return Ok(FilterValue::HtmlEscape);
    }
    if try_literal("htmlUnescape", reader).is_ok() {
        return Ok(FilterValue::HtmlUnescape);
    }
    if try_literal("jsonpath", reader).is_ok() {
        return match quoted_operand(reader) {
            Ok((space0, expr)) => Ok(FilterValue::JsonPath { space0, expr }),
            Err(e) => Err(e),
        };
    }
    if try_literal("nth", reader).is_ok() {
        let space0 = match one_or_more_spaces(reader) {
            Ok(w) => w,
            Err(e) => {
                return Err(e);
            },
        };
        return match natural(reader) {
            Ok(n) => Ok(FilterValue::Nth { space0, n }),
            Err(e) => Err(e.fatal()),
        };
    }
    if try_literal("regex", reader).is_ok() {
        let space0 = match one_or_more_spaces(reader) {
            Ok(w) => w,
            Err(e) => {
                return Err(e);
            },
        };
        return match regex_value(reader) {
            Ok(value) => Ok(FilterValue::Regex { space0, value }),
            Err(e) => Err(e),
        };
    }
    if try_literal("replace", reader).is_ok() {
        let space0 = match one_or_more_spaces(reader) {
            Ok(w) => w,
            Err(e) => {
                return Err(e);
            },
        };
        let old_value = match regex_value(reader) {
            Ok(v) => v,
            Err(e) => {
                return Err(e);
            },
        };
        return match quoted_operand(reader) {
            Ok((space1, new_value)) => Ok(
                FilterValue::Replace { space0, old_value, space1, new_value },
            ),
            Err(e) => Err(e),
        };
    }
    if try_literal("split", reader).is_ok() {
        return match quoted_operand(reader) {
            Ok((space0, sep)) => Ok(FilterValue::Split { space0, sep }),
            Err(e) => Err(e),
        };
    }
    if try_literal("toInt", reader).is_ok() {
        return Ok(FilterValue::ToInt);
    }
    if try_literal("urlDecode", reader).is_ok() {
        return Ok(FilterValue::UrlDecode);
    }
    if try_literal("urlEncode", reader).is_ok() {
        return Ok(FilterValue::UrlEncode);
    }
    if try_literal("xpath", reader).is_ok() {
        return match quoted_operand(reader) {
            Ok((space0, expr)) => Ok(FilterValue::XPath { space0, expr }),
            Err(e) => Err(e),
        };
    }
    Err(Error::new(start.pos, true, ParseError::Expecting { value: "filter".to_string() }))
}

/// Reads a filter.
pub fn filter(reader: &mut Reader) -> (r: ParseResult<Filter>)
    requires
        old(reader).wf(),
    ensures
        parsed(
            old(reader),
            final(reader),
            r,
            filter_at(old(reader).source(), old(reader).state.cursor as int),
        ),
        r matches Ok(f) ==> {
            &&& final(reader).state.cursor > old(reader).state.cursor
            &&& f.source_info == (SourceInfo {
                start: old(reader).state.pos,
                end: final(reader).state.pos,
            })
            &&& filter_source(f) == filter_source_at(
                old(reader).source(),
                old(reader).state.cursor as int,
            )
        },
{
    proof {
        reveal(filter_at);
        reveal(filter_source);
    }
    let start = reader.state.pos;
    let value = match filter_value(reader) {
        Ok(v) => v,
        Err(e) => {
            return Err(e);
        },
    };
    let end = reader.state.pos;
    Ok(Filter { source_info: SourceInfo::new(start, end), value })
}

/// Reads the filters at the cursor, each with the spaces before it: none,
/// one or many. Spaces that no filter follows are left unread.
pub fn filters(reader: &mut Reader) -> (r: ParseResult<Vec<(Whitespace, Filter)>>)
    requires
        old(reader).wf(),
    ensures
        parsed(
            old(reader),
            final(reader),
            r,
            filters_at(old(reader).source(), old(reader).state.cursor as int),
        ),
        r matches Err(e) ==> !e.recoverable,
        r matches Ok(fs) ==> {
            &&& (fs@.len() == 0 ==> final(reader).state == old(reader).state)
            &&& filter_sources(fs@) == filter_sources_at(
                old(reader).source(),
                old(reader).state.cursor as int,
            )
        },
{
    let mut filters: Vec<(Whitespace, Filter)> = Vec::new();
    proof {
        assert(filter_sources(filters@) + filter_sources_at(
            reader.source(),
            reader.state.cursor as int,
        ) =~= filter_sources_at(reader.source(), reader.state.cursor as int));
    }
    loop
        invariant
            reader.follows(old(reader)),
            old(reader).wf(),
            filters@.len() == 0 ==> reader.state == old(reader).state,
            filters_at(old(reader).source(), old(reader).state.cursor as int) == filters_at(
                reader.source(),
                reader.state.cursor as int,
            ),
            filter_sources(filters@) + filter_sources_at(
                reader.source(),
                reader.state.cursor as int,
            ) == filter_sources_at(old(reader).source(), old(reader).state.cursor as int),
        ensures
            reader.follows(old(reader)),
            filters@.len() == 0 ==> reader.state == old(reader).state,
            filters_at(old(reader).source(), old(reader).state.cursor as int) == Outcome::Done(
                reader.state.cursor as int,
            ),
            filter_sources(filters@) == filter_sources_at(
                old(reader).source(),
                old(reader).state.cursor as int,
            ),
        decreases reader.buffer@.len() - reader.state.cursor,
    {
        let save = reader.state;
        let ghost at = reader.state.cursor as int;
        let ghost rest = filter_sources_at(reader.source(), at);
        let ghost prior = filters@;
        let space = match zero_or_more_spaces(reader) {
            Ok(w) => w,
            Err(e) => {
                return Err(e.fatal());
            },
        };
        if reader.state.cursor == save.cursor {
            proof {
                lemma_filter_end(reader.source(), at);
                assert(filter_sources(filters@) + rest =~= filter_sources(filters@));
            }
            break ;
        }
        match filter(reader) {
            Ok(f) => {
                filters.push((space, f));
                proof {
                    lemma_filter_step(reader.source(), at, reader.state.cursor as int);
                    assert(filter_sources(filters@) =~= filter_sources(prior).push(
                        filter_source(f),
                    ));
                    assert(filter_sources(filters@) + filter_sources_at(
                        reader.source(),
                        reader.state.cursor as int,
                    ) =~= filter_sources(prior) + rest);
                }
            },
            Err(e) => {
                if e.recoverable {
                    reader.restore(save);
                    proof {
                        lemma_filter_end(reader.source(), at);
                        assert(filter_sources(filters@) + rest =~= filter_sources(filters@));
                    }
                    break ;
                } else {
                    return Err(e);
                }
            },
        }
    }
    Ok(filters)
}

} // verus!
