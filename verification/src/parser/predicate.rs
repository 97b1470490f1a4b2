//! Predicates: the tests of asserts.

use vstd::prelude::*;

use crate::asserts::predicate::{operand_of, test_of, Test};
use crate::ast::{
    Predicate, PredicateFunc, PredicateFuncValue, PredicateValue, SourceInfo, Whitespace,
};
use crate::parser::error::{Error, ParseError, ParseErrorView};
use crate::parser::predicate_value::{operand_at, predicate_value, predicate_value_at};
use crate::parser::primitives::{
    fail, one_or_more_spaces, one_or_more_spaces_at, parsed, spaces_end, try_literal,
    try_literal_at, try_literals, try_literals_at, zero_or_more_spaces,
    zero_or_more_spaces_at, Outcome, ParseResult,
};
use crate::parser::reader::{Reader, Source};

verus! {

/// Where the test of the predicate that starts at `i` starts: after `not`
/// and the spaces that follow it, when they are there.
pub open spec fn not_end(src: Source, i: int) -> int {
    match try_literal_at(src, i, "not"@) {
        Outcome::Done(a) => if spaces_end(src.text, a) > a {
            spaces_end(src.text, a)
        } else {
            i
        },
        Outcome::Failed(_) => i,
    }
}

/// The rule of the operand of a test: spaces, which may be missing after a
/// test written as a sign, then the operand.
pub open spec fn compared_at(src: Source, i: int, operator: bool) -> Outcome {
    match (if operator {
        zero_or_more_spaces_at(src, i)
    } else {
        one_or_more_spaces_at(src, i)
    }) {
        Outcome::Done(a) => predicate_value_at(src, a),
        Outcome::Failed(e) => Outcome::Failed(e),
    }
}

/// The rule of the kind of a test and its operand: the kinds are tried in
/// the order in which they stand here.
pub open spec fn predicate_func_value_at(src: Source, i: int) -> Outcome {
    if try_literals_at(src, i, "equals"@, "=="@) is Done {
        compared_at(
            src,
            try_literals_at(src, i, "equals"@, "=="@)->Done_0,
            !(try_literal_at(src, i, "equals"@) is Done),
        )
    } else if try_literals_at(src, i, "notEquals"@, "!="@) is Done {
        compared_at(
            src,
            try_literals_at(src, i, "notEquals"@, "!="@)->Done_0,
            !(try_literal_at(src, i, "notEquals"@) is Done),
        )
    } else if try_literals_at(src, i, "greaterThanOrEquals"@, ">="@) is Done {
        compared_at(
            src,
            try_literals_at(src, i, "greaterThanOrEquals"@, ">="@)->Done_0,
            !(try_literal_at(src, i, "greaterThanOrEquals"@) is Done),
        )
    } else if try_literals_at(src, i, "greaterThan"@, ">"@) is Done {
        compared_at(
            src,
            try_literals_at(src, i, "greaterThan"@, ">"@)->Done_0,
            !(try_literal_at(src, i, "greaterThan"@) is Done),
        )
    } else if try_literals_at(src, i, "lessThanOrEquals"@, "<="@) is Done {
        compared_at(
            src,
            try_literals_at(src, i, "lessThanOrEquals"@, "<="@)->Done_0,
            !(try_literal_at(src, i, "lessThanOrEquals"@) is Done),
        )
    } else if try_literals_at(src, i, "lessThan"@, "<"@) is Done {
        compared_at(
            src,
            try_literals_at(src, i, "lessThan"@, "<"@)->Done_0,
            !(try_literal_at(src, i, "lessThan"@) is Done),
        )
    } else if try_literal_at(src, i, "startsWith"@) is Done {
        compared_at(src, try_literal_at(src, i, "startsWith"@)->Done_0, false)
    } else if try_literal_at(src, i, "endsWith"@) is Done {
        compared_at(src, try_literal_at(src, i, "endsWith"@)->Done_0, false)
    } else if try_literal_at(src, i, "contains"@) is Done {
        compared_at(src, try_literal_at(src, i, "contains"@)->Done_0, false)
    } else if try_literal_at(src, i, "includes"@) is Done {
        compared_at(src, try_literal_at(src, i, "includes"@)->Done_0, false)
    } else if try_literal_at(src, i, "matches"@) is Done {
        compared_at(src, try_literal_at(src, i, "matches"@)->Done_0, false)
    } else if try_literal_at(src, i, "isInteger"@) is Done {
        try_literal_at(src, i, "isInteger"@)
    } else if try_literal_at(src, i, "isFloat"@) is Done {
        try_literal_at(src, i, "isFloat"@)
    } else if try_literal_at(src, i, "isBoolean"@) is Done {
        try_literal_at(src, i, "isBoolean"@)
    } else if try_literal_at(src, i, "isString"@) is Done {
        try_literal_at(src, i, "isString"@)
    } else if try_literal_at(src, i, "isCollection"@) is Done {
        try_literal_at(src, i, "isCollection"@)
    } else if try_literal_at(src, i, "isDate"@) is Done {
        try_literal_at(src, i, "isDate"@)
    } else if try_literal_at(src, i, "isIsoDate"@) is Done {
        try_literal_at(src, i, "isIsoDate"@)
    } else if try_literal_at(src, i, "exists"@) is Done {
        try_literal_at(src, i, "exists"@)
    } else if try_literal_at(src, i, "isEmpty"@) is Done {
        try_literal_at(src, i, "isEmpty"@)
    } else {
        fail(src.pos(i), true, ParseErrorView::Predicate)
    }
}

/// The test that the rule of a test reads at `i`: its kind is that of the
/// first sign or word, in the order of the rule, that stands at `i`, and its
/// operand is what follows the sign or word and spaces.
pub open spec fn test_at(src: Source, i: int) -> Test {
    if try_literals_at(src, i, "equals"@, "=="@) is Done {
        Test::Equal(
            operand_at(
                src,
                spaces_end(src.text, try_literals_at(src, i, "equals"@, "=="@)->Done_0),
            ),
        )
    } else if try_literals_at(src, i, "notEquals"@, "!="@) is Done {
        Test::NotEqual(
            operand_at(
                src,
                spaces_end(src.text, try_literals_at(src, i, "notEquals"@, "!="@)->Done_0),
            ),
        )
    } else if try_literals_at(src, i, "greaterThanOrEquals"@, ">="@) is Done {
        Test::GreaterThanOrEqual(
            operand_at(
                src,
                spaces_end(src.text, try_literals_at(src, i, "greaterThanOrEquals"@, ">="@)->Done_0),
            ),
        )
    } else if try_literals_at(src, i, "greaterThan"@, ">"@) is Done {
        Test::GreaterThan(
            operand_at(
                src,
                spaces_end(src.text, try_literals_at(src, i, "greaterThan"@, ">"@)->Done_0),
            ),
        )
    } else if try_literals_at(src, i, "lessThanOrEquals"@, "<="@) is Done {
        Test::LessThanOrEqual(
            operand_at(
                src,
                spaces_end(src.text, try_literals_at(src, i, "lessThanOrEquals"@, "<="@)->Done_0),
            ),
        )
    } else if try_literals_at(src, i, "lessThan"@, "<"@) is Done {
        Test::LessThan(
            operand_at(
                src,
                spaces_end(src.text, try_literals_at(src, i, "lessThan"@, "<"@)->Done_0),
            ),
        )
    } else if try_literal_at(src, i, "startsWith"@) is Done {
        Test::StartWith(
            operand_at(src, spaces_end(src.text, try_literal_at(src, i, "startsWith"@)->Done_0)),
        )
    } else if try_literal_at(src, i, "endsWith"@) is Done {
        Test::EndWith(
            operand_at(src, spaces_end(src.text, try_literal_at(src, i, "endsWith"@)->Done_0)),
        )
    } else if try_literal_at(src, i, "contains"@) is Done {
        Test::Contain(
            operand_at(src, spaces_end(src.text, try_literal_at(src, i, "contains"@)->Done_0)),
        )
    } else if try_literal_at(src, i, "includes"@) is Done {
        Test::Include(
            operand_at(src, spaces_end(src.text, try_literal_at(src, i, "includes"@)->Done_0)),
        )
    } else if try_literal_at(src, i, "matches"@) is Done {
        Test::Match(
            operand_at(src, spaces_end(src.text, try_literal_at(src, i, "matches"@)->Done_0)),
        )
    } else if try_literal_at(src, i, "isInteger"@) is Done {
        Test::IsInteger
    } else if try_literal_at(src, i, "isFloat"@) is Done {
        Test::IsFloat
    } else if try_literal_at(src, i, "isBoolean"@) is Done {
        Test::IsBoolean
    } else if try_literal_at(src, i, "isString"@) is Done {
        Test::IsString
    } else if try_literal_at(src, i, "isCollection"@) is Done {
        Test::IsCollection
    } else if try_literal_at(src, i, "isDate"@) is Done {
        Test::Other
    } else if try_literal_at(src, i, "isIsoDate"@) is Done {
        Test::Other
    } else if try_literal_at(src, i, "exists"@) is Done {
        Test::Exist
    } else if try_literal_at(src, i, "isEmpty"@) is Done {
        Test::IsEmpty
    } else {
        Test::Other
    }
}

/// The rule of the test of a predicate: text that starts no test is a final
/// failure.
pub open spec fn predicate_func_at(src: Source, i: int) -> Outcome {
    match predicate_func_value_at(src, i) {
        Outcome::Done(j) => Outcome::Done(j),
        Outcome::Failed(e) => if e.recoverable {
            fail(src.pos(i), false, ParseErrorView::Predicate)
        } else {
            Outcome::Failed(e)
        },
    }
}

/// The rule of `predicate`: an optional `not`, then the test.
pub open spec fn predicate_at(src: Source, i: int) -> Outcome {
    predicate_func_at(src, not_end(src, i))
}

/// Reads a predicate: an optional `not`, then the test.
pub fn predicate(reader: &mut Reader) -> (r: ParseResult<Predicate>)
    requires
        old(reader).wf(),
    ensures
        parsed(
            old(reader),
            final(reader),
            r,
            predicate_at(old(reader).source(), old(reader).state.cursor as int),
        ),
        r matches Err(e) ==> !e.recoverable,
        r matches Ok(p) ==> {
            &&& final(reader).state.cursor > old(reader).state.cursor
            &&& p.predicate_func.source_info == (SourceInfo {
                start: old(reader).pos_of(
                    not_end(old(reader).source(), old(reader).state.cursor as int),
                ),
                end: final(reader).state.pos,
            })
            &&& p.not == (not_end(old(reader).source(), old(reader).state.cursor as int) > old(
                reader,
            ).state.cursor)
            &&& test_of(p.predicate_func.value) == test_at(
                old(reader).source(),
                not_end(old(reader).source(), old(reader).state.cursor as int),
            )
        },
{
    let (not, space0) = predicate_not(reader);
    let func = match predicate_func(reader) {
        Ok(f) => f,
        Err(e) => {
            return Err(e);
        },
    };
    Ok(Predicate { not, space0, predicate_func: func })
}

/// Reads `not` and the spaces after it, if they are there.
fn predicate_not(reader: &mut Reader) -> (r: (bool, Whitespace))
    requires
        old(reader).wf(),
    ensures
        final(reader).follows(old(reader)),
        final(reader).state.cursor == not_end(
            old(reader).source(),
            old(reader).state.cursor as int,
        ),
        r.0 == (final(reader).state.cursor > old(reader).state.cursor),
        !r.0 ==> final(reader).state == old(reader).state,
{
    proof {
        reveal_strlit("not");
    }
    let save = reader.state;
    let no_whitespace = Whitespace {
        value: String::new(),
        source_info: SourceInfo::new(save.pos, save.pos),
    };
    if try_literal("not", reader).is_ok() {
        match one_or_more_spaces(reader) {
            Ok(space0) => (true, space0),
            Err(_) => {
                reader.restore(save);
                (false, no_whitespace)
            },
        }
    } else {
        (false, no_whitespace)
    }
}

/// Reads the test of a predicate.
fn predicate_func(reader: &mut Reader) -> (r: ParseResult<PredicateFunc>)
    requires
        old(reader).wf(),
    ensures
        parsed(
            old(reader),
            final(reader),
            r,
            predicate_func_at(old(reader).source(), old(reader).state.cursor as int),
        ),
        r matches Err(e) ==> !e.recoverable,
        r matches Ok(f) ==> {
            &&& final(reader).state.cursor > old(reader).state.cursor
            &&& f.source_info == (SourceInfo {
                start: old(reader).state.pos,
                end: final(reader).state.pos,
            })
            &&& test_of(f.value) == test_at(old(reader).source(), old(reader).state.cursor as int)
        },
{
    let start = reader.state.pos;
    let value = match predicate_func_value(reader) {
        Ok(v) => v,
        Err(e) => {
            if e.recoverable {
                return Err(Error::new(start, false, ParseError::Predicate));
            } else {
                return Err(e);
            }
        },
    };
    let end = reader.state.pos;
    Ok(PredicateFunc { source_info: SourceInfo::new(start, end), value })
}

/// Reads the operand of a test written as a sign or as a word: after a sign
/// the spaces may be missing, after a word one at least is needed.
fn compared(operator: bool, reader: &mut Reader) -> (r: ParseResult<(Whitespace, PredicateValue)>)
    requires
        old(reader).wf(),
    ensures
        parsed(
            old(reader),
            final(reader),
            r,
            compared_at(old(reader).source(), old(reader).state.cursor as int, operator),
        ),
        r matches Err(e) ==> !e.recoverable,
        r matches Ok(c) ==> operand_of(c.1) == operand_at(
            old(reader).source(),
            spaces_end(old(reader).buffer@, old(reader).state.cursor as int),
        ),
{
    let space0 = if operator {
        match zero_or_more_spaces(reader) {
            Ok(w) => w,
            Err(e) => {
                return Err(e.fatal());
            },
        }
    } else {
        match one_or_more_spaces(reader) {
            Ok(w) => w,
            Err(e) => {
                return Err(e);
            },
        }
    };
    let value = match predicate_value(reader) {
        Ok(v) => v,
        Err(e) => {
            return Err(e);
        },
    };
    Ok((space0, value))
}

/// Reads the kind of a test and its operand.
fn predicate_func_value(reader: &mut Reader) -> (r: ParseResult<PredicateFuncValue>)
    requires
        old(reader).wf(),
    ensures
        parsed(
            old(reader),
            final(reader),
            r,
            predicate_func_value_at(old(reader).source(), old(reader).state.cursor as int),
        ),
        r matches Ok(v) ==> {
            &&& final(reader).state.cursor > old(reader).state.cursor
            &&& test_of(v) == test_at(old(reader).source(), old(reader).state.cursor as int)
        },
{
    proof {
        reveal_strlit("equals");
        reveal_strlit("==");
        reveal_strlit("notEquals");
        reveal_strlit("!=");
        reveal_strlit("greaterThanOrEquals");
        reveal_strlit(">=");
        reveal_strlit("greaterThan");
        reveal_strlit(">");
        reveal_strlit("lessThanOrEquals");
        reveal_strlit("<=");
        reveal_strlit("lessThan");
        reveal_strlit("<");
        reveal_strlit("startsWith");
        reveal_strlit("endsWith");
        reveal_strlit("contains");
        reveal_strlit("includes");
        reveal_strlit("matches");
        reveal_strlit("isInteger");
        reveal_strlit("isFloat");
        reveal_strlit("isBoolean");
        reveal_strlit("isString");
        reveal_strlit("isCollection");
        reveal_strlit("isDate");
        reveal_strlit("isIsoDate");
        reveal_strlit("exists");
        reveal_strlit("isEmpty");
    }
    let start = reader.state;
    match try_literals("equals", "==", reader) {
        Ok(word) => {
            return match compared(!word, reader) {
                Ok((space0, value)) => Ok(
                    PredicateFuncValue::Equal { space0, value, operator: !word },
                ),
                Err(e) => Err(e),
            };
        },
        Err(_) => {},
    }
    match try_literals("notEquals", "!=", reader) {
        Ok(word) => {
            return match compared(!word, reader) {
                Ok((space0, value)) => Ok(
                    PredicateFuncValue::NotEqual { space0, value, operator: !word },
                ),
                Err(e) => Err(e),
            };
        },
        Err(_) => {},
    }
    match try_literals("greaterThanOrEquals", ">=", reader) {
        Ok(word) => {
            return match compared(!word, reader) {
                Ok((space0, value)) => Ok(
                    PredicateFuncValue::GreaterThanOrEqual { space0, value, operator: !word },
                ),
                Err(e) => Err(e),
            };
        },
        Err(_) => {},
    }
    match try_literals("greaterThan", ">", reader) {
        Ok(word) => {
            return match compared(!word, reader) {
                Ok((space0, value)) => Ok(
                    PredicateFuncValue::GreaterThan { space0, value, operator: !word },
                ),
                Err(e) => Err(e),
            };
        },
        Err(_) => {},
    }
    match try_literals("lessThanOrEquals", "<=", reader) {
        Ok(word) => {
            return match compared(!word, reader) {
                Ok((space0, value)) => Ok(
                    PredicateFuncValue::LessThanOrEqual { space0, value, operator: !word },
                ),
                Err(e) => Err(e),
            };
        },
        Err(_) => {},
    }
    match try_literals("lessThan", "<", reader) {
        Ok(word) => {
            return match compared(!word, reader) {
                Ok((space0, value)) => Ok(
                    PredicateFuncValue::LessThan { space0, value, operator: !word },
                ),
                Err(e) => Err(e),
            };
        },
        Err(_) => {},
    }
    if try_literal("startsWith", reader).is_ok() {
        return match compared(false, reader) {
            Ok((space0, value)) => Ok(PredicateFuncValue::StartWith { space0, value }),
            Err(e) => Err(e),
        };
    }
    if try_literal("endsWith", reader).is_ok() {
        return match compared(false, reader) {
            Ok((space0, value)) => Ok(PredicateFuncValue::EndWith { space0, value }),
            Err(e) => Err(e),
        };
    }
    if try_literal("contains", reader).is_ok() {
        return match compared(false, reader) {
            Ok((space0, value)) => Ok(PredicateFuncValue::Contain { space0, value }),
            Err(e) => Err(e),
        };
    }
    if try_literal("includes", reader).is_ok() {
        return match compared(false, reader) {
            Ok((space0, value)) => Ok(PredicateFuncValue::Include { space0, value }),
            Err(e) => Err(e),
        };
    }
    if try_literal("matches", reader).is_ok() {
        return match compared(false, reader) {
            Ok((space0, value)) => Ok(PredicateFuncValue::Match { space0, value }),
            Err(e) => Err(e),
        };
    }
    if try_literal("isInteger", reader).is_ok() {
        return Ok(PredicateFuncValue::IsInteger);
    }
    if try_literal("isFloat", reader).is_ok() {
        return Ok(PredicateFuncValue::IsFloat);
    }
    if try_literal("isBoolean", reader).is_ok() {
        return Ok(PredicateFuncValue::IsBoolean);
    }
    if try_literal("isString", reader).is_ok() {
        return Ok(PredicateFuncValue::IsString);
    }
    if try_literal("isCollection", reader).is_ok() {
        return Ok(PredicateFuncValue::IsCollection);
    }
    if try_literal("isDate", reader).is_ok() {
        return Ok(PredicateFuncValue::IsDate);
    }
    if try_literal("isIsoDate", reader).is_ok() {
        return Ok(PredicateFuncValue::IsIsoDate);
    }
    if try_literal("exists", reader).is_ok() {
        return Ok(PredicateFuncValue::Exist);
    }
    if try_literal("isEmpty", reader).is_ok() {
        return Ok(PredicateFuncValue::IsEmpty);
    }
    Err(Error::new(start.pos, true, ParseError::Predicate))
}

} // verus!
