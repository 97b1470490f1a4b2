//! The operands of predicates.

use vstd::prelude::*;

use crate::asserts::predicate::{operand_of, Operand};
use crate::ast::PredicateValue;
use crate::parser::bytes::{
    base64, base64_at, file, file_at, hex, hex_at, multiline_string, multiline_string_at,
};
use crate::parser::error::{Error, ParseError, ParseErrorView};
use crate::parser::expr;
use crate::parser::number::{number, number_at, number_view_at};
use crate::parser::primitives::{
    expecting, fail, parsed, try_literal, try_literal_at, Outcome, ParseResult,
};
use crate::parser::reader::{Reader, Source};
use crate::parser::regex::{regex, regex_at, regex_source};
use crate::parser::string::{delimited_template_at, quoted_template};

verus! {

/// The rule of `boolean`: `true` or `false`.
pub open spec fn boolean_at(src: Source, i: int) -> Outcome {
    if try_literal_at(src, i, "true"@) is Done {
        try_literal_at(src, i, "true"@)
    } else if try_literal_at(src, i, "false"@) is Done {
        try_literal_at(src, i, "false"@)
    } else {
        fail(src.pos(i), true, expecting("true|false"@))
    }
}

/// The rule of `null`.
pub open spec fn null_at(src: Source, i: int) -> Outcome {
    try_literal_at(src, i, "null"@)
}

/// The outcome of the first of two rules, or of the second when the first
/// leaves room for it.
pub open spec fn or_else(first: Outcome, second: Outcome) -> Outcome {
    match first {
        Outcome::Done(j) => Outcome::Done(j),
        Outcome::Failed(e) => if e.recoverable {
            second
        } else {
            Outcome::Failed(e)
        },
    }
}

/// What is reported when no kind of operand can be read.
pub open spec fn last_resort(o: Outcome) -> Outcome {
    match o {
        Outcome::Done(j) => Outcome::Done(j),
        Outcome::Failed(e) => if e.recoverable {
            fail(e.pos, false, ParseErrorView::PredicateValue)
        } else {
            Outcome::Failed(e)
        },
    }
}

/// The rule of `predicate_value`: `null`, a boolean, a number, a file,
/// hexadecimal data, base64 data, a variable reference, a string over
/// several lines, a quoted string or a regular expression, tried in this
/// order.
pub open spec fn predicate_value_at(src: Source, i: int) -> Outcome {
    or_else(
        null_at(src, i),
        or_else(
            boolean_at(src, i),
            or_else(
                number_at(src, i),
                or_else(
                    file_at(src, i),
                    or_else(
                        hex_at(src, i),
                        or_else(
                            base64_at(src, i),
                            or_else(
                                expr::parse_at(src, i),
                                or_else(
                                    multiline_string_at(src, i),
                                    or_else(
                                        delimited_template_at(src, i, '"'),
                                        last_resort(regex_at(src, i)),
                                    ),
                                ),
                            ),
                        ),
                    ),
                ),
            ),
        ),
    )
}

/// The operand that the rule of `predicate_value` reads at `i`: that of the
/// first kind, in the order of the rule, that the text at `i` is of.
pub open spec fn operand_at(src: Source, i: int) -> Operand {
    if null_at(src, i) is Done {
        Operand::Null
    } else if boolean_at(src, i) is Done {
        Operand::Bool(try_literal_at(src, i, "true"@) is Done)
    } else if number_at(src, i) is Done {
        Operand::Number(number_view_at(src, i))
    } else if file_at(src, i) is Done || hex_at(src, i) is Done || base64_at(src, i) is Done
        || expr::parse_at(src, i) is Done || multiline_string_at(src, i) is Done {
        Operand::Other
    } else if delimited_template_at(src, i, '"') is Done {
        Operand::String(src.text.subrange(i, delimited_template_at(src, i, '"')->Done_0))
    } else {
        Operand::Regex(regex_source(src, i))
    }
}

/// Reads `true` or `false`. Any other text is left to another rule.
pub fn boolean(reader: &mut Reader) -> (r: ParseResult<bool>)
    requires
        old(reader).wf(),
    ensures
        parsed(
            old(reader),
            final(reader),
            r,
            boolean_at(old(reader).source(), old(reader).state.cursor as int),
        ),
        r matches Err(e) ==> e.recoverable,
        r matches Ok(b) ==> {
            &&& final(reader).state.cursor > old(reader).state.cursor
            &&& b == (try_literal_at(
                old(reader).source(),
                old(reader).state.cursor as int,
                "true"@,
            ) is Done)
        },
{
    proof {
        reveal_strlit("true");
        reveal_strlit("false");
    }
    let start = reader.state;
    match try_literal("true", reader) {
        Ok(_) => Ok(true),
        Err(_) => match try_literal("false", reader) {
            Ok(_) => Ok(false),
            Err(_) => Err(
                Error::new(
                    start.pos,
                    true,
                    ParseError::Expecting { value: "true|false".to_string() },
                ),
            ),
        },
    }
}

/// Reads `null`. Any other text is left to another rule.
pub fn null(reader: &mut Reader) -> (r: ParseResult<()>)
    requires
        old(reader).wf(),
    ensures
        parsed(
            old(reader),
            final(reader),
            r,
            null_at(old(reader).source(), old(reader).state.cursor as int),
        ),
        r matches Err(e) ==> e.recoverable,
        r is Ok ==> final(reader).state.cursor > old(reader).state.cursor,
{
    proof {
        reveal_strlit("null");
    }
    try_literal("null", reader)
}

/// What is reported when an operand that has started cannot be read.
fn failed(e: Error) -> (r: Error)
    ensures
        !r.recoverable,
        r.pos == e.pos,
        Outcome::Failed(r@) == last_resort(Outcome::Failed(e@)),
{
    if e.recoverable {
        Error::new(e.pos, false, ParseError::PredicateValue)
    } else {
        e
    }
}

/// Reads the operand of a predicate: `null`, a boolean, a number, a file,
/// hexadecimal or base64 data, a variable reference, a string over several
/// lines, a quoted string or a regular expression, tried in this order.
pub fn predicate_value(reader: &mut Reader) -> (r: ParseResult<PredicateValue>)
    requires
        old(reader).wf(),
    ensures
        parsed(
            old(reader),
            final(reader),
            r,
            predicate_value_at(old(reader).source(), old(reader).state.cursor as int),
        ),
        r matches Err(e) ==> !e.recoverable,
        r matches Ok(v) ==> {
            &&& final(reader).state.cursor > old(reader).state.cursor
            &&& operand_of(v) == operand_at(old(reader).source(), old(reader).state.cursor as int)
        },
{
    if null(reader).is_ok() {
        return Ok(PredicateValue::Null);
    }
    match boolean(reader) {
        Ok(value) => {
            return Ok(PredicateValue::Bool(value));
        },
        Err(_) => {},
    }
    match number(reader) {
        Ok(value) => {
            return Ok(PredicateValue::Number(value));
        },
        Err(e) => {
            if !e.recoverable {
                return Err(e);
            }
        },
    }
    match file(reader) {
        Ok(value) => {
            return Ok(PredicateValue::File(value));
        },
        Err(e) => {
            if !e.recoverable {
                return Err(e);
            }
        },
    }
    match hex(reader) {
        Ok(value) => {
            return Ok(PredicateValue::Hex(value));
        },
        Err(e) => {
            if !e.recoverable {
                return Err(e);
            }
        },
    }
    match base64(reader) {
        Ok(value) => {
            return Ok(PredicateValue::Base64(value));
        },
        Err(e) => {
            if !e.recoverable {
                return Err(e);
            }
        },
    }
    match expr::parse(reader) {
        Ok(value) => {
            return Ok(PredicateValue::Expression(value));
        },
        Err(e) => {
            if !e.recoverable {
                return Err(e);
            }
        },
    }
    match multiline_string(reader) {
        Ok(value) => {
            return Ok(PredicateValue::MultilineString(value));
        },
        Err(e) => {
            if !e.recoverable {
                return Err(e);
            }
        },
    }
    match quoted_template(reader) {
        Ok(value) => {
            return Ok(PredicateValue::String(value));
        },
        Err(e) => {
            if !e.recoverable {
                return Err(e);
            }
        },
    }
    match regex(reader) {
        Ok(value) => Ok(PredicateValue::Regex(value)),
        Err(e) => Err(failed(e)),
    }
}

} // verus!
