//! Numbers: naturals, and the numeric operands of predicates.

use vstd::prelude::*;

use crate::ast::{Float, Number, Pos};
use crate::asserts::predicate::{number_source, NumberView};
use crate::decimal::{
    all_digit_chars, digit_values, nat_of, strip_leading, strip_trailing, Decimal, DecimalView,
};
use crate::parser::error::{Error, ParseError};
use crate::parser::primitives::{expecting, fail, parsed, try_literal, Outcome, ParseResult};
use crate::parser::reader::{run_end, successor, CharClass, Reader, Source};
use crate::text::chars_of;

verus! {

/// The rule of `natural`: one or more digits, with no zero in front of
/// other digits, that denote a number of 64 bits.
pub open spec fn natural_at(src: Source, i: int) -> Outcome {
    let n = run_end(src.text, CharClass::Digit, i);
    if n <= i {
        fail(src.pos(i), true, expecting("natural"@))
    } else if (src.text[i] == '0' && n > i + 1) || nat_of(
        digit_values(src.text.subrange(i, n)),
    ) > u64::MAX {
        fail(src.pos(i + 1), false, expecting("natural"@))
    } else {
        Outcome::Done(n)
    }
}

/// Where the digits of the number that starts at `i` start: after its
/// minus sign, if it has one.
pub open spec fn digits_start(src: Source, i: int) -> int {
    if 0 <= i < src.len() && src.text[i] == '-' {
        i + 1
    } else {
        i
    }
}

/// The rule of `number`: an optional minus sign, digits with no zero in
/// front of other digits, and optionally a point and more digits.
pub open spec fn number_at(src: Source, i: int) -> Outcome {
    let a = digits_start(src, i);
    let n = run_end(src.text, CharClass::Digit, a);
    if n <= a {
        fail(src.pos(a), true, expecting("number"@))
    } else if src.text[a] == '0' && n > a + 1 {
        fail(src.pos(n), false, expecting("natural"@))
    } else if 0 <= n < src.len() && src.text[n] == '.' {
        if run_end(src.text, CharClass::Digit, n + 1) <= n + 1 {
            fail(src.pos(n + 1), false, expecting("natural"@))
        } else {
            Outcome::Done(run_end(src.text, CharClass::Digit, n + 1))
        }
    } else {
        Outcome::Done(n)
    }
}

/// The fractional number written as a sign, digits before the point and
/// digits after it, in normal form.
pub open spec fn decimal_of(negative: bool, integer: Seq<char>, fraction: Seq<char>) -> DecimalView {
    let i = strip_leading(digit_values(integer));
    let f = strip_trailing(digit_values(fraction));
    DecimalView { negative: negative && (i.len() > 0 || f.len() > 0), integer: i, fraction: f }
}

/// The number that the rule of `number` reads at `i`: a fractional number
/// when it has a point, else a whole number of 64 bits, else the text of a
/// whole number that is too large.
pub open spec fn number_view_at(src: Source, i: int) -> NumberView {
    let a = digits_start(src, i);
    let n = run_end(src.text, CharClass::Digit, a);
    let value = nat_of(digit_values(src.text.subrange(a, n)));
    if 0 <= n < src.len() && src.text[n] == '.' {
        NumberView::Float(
            decimal_of(
                a > i,
                src.text.subrange(a, n),
                src.text.subrange(n + 1, run_end(src.text, CharClass::Digit, n + 1)),
            ),
        )
    } else if a == i && value <= i64::MAX {
        NumberView::Integer(value as i64)
    } else if a > i && value <= i64::MAX + 1 {
        NumberView::Integer((-(value as int)) as i64)
    } else {
        NumberView::BigInteger(src.text.subrange(i, n))
    }
}

/// A run of characters of a class ends within the text, at or after its
/// start.
pub proof fn lemma_run_end(text: Seq<char>, class: CharClass, i: int)
    requires
        0 <= i <= text.len(),
    ensures
        i <= run_end(text, class, i) <= text.len(),
    decreases text.len() - i,
{
    if i < text.len() && class.holds(text[i]) {
        lemma_run_end(text, class, i + 1);
    }
}

/// Every character of a run of digits is a digit.
pub proof fn lemma_run_of_digits(buffer: Seq<char>, from: int, to: int)
    requires
        0 <= from <= to <= buffer.len(),
        run_end(buffer, CharClass::Digit, from) >= to,
    ensures
        all_digit_chars(buffer.subrange(from, to)),
    decreases to - from,
{
    if from < to {
        lemma_run_of_digits(buffer, from + 1, to);
        assert forall|i: int| 0 <= i < to - from implies crate::decimal::is_digit(
            #[trigger] buffer.subrange(from, to)[i],
        ) by {
            if i > 0 {
                assert(buffer.subrange(from, to)[i] == buffer.subrange(from + 1, to)[i - 1]);
            }
        }
    }
}

/// The value of a run of digits when it fits in 64 bits.
fn value_of_digits(digits: &Vec<char>) -> (r: Option<u64>)
    requires
        all_digit_chars(digits@),
    ensures
        match r {
            Some(v) => v as nat == nat_of(digit_values(digits@)),
            None => nat_of(digit_values(digits@)) > u64::MAX,
        },
{
    let ghost values = digit_values(digits@);
    let mut acc: u64 = 0;
    let mut i: usize = 0;
    while i < digits.len()
        invariant
            i <= digits.len(),
            values == digit_values(digits@),
            all_digit_chars(digits@),
            acc as nat == nat_of(values.take(i as int)),
        decreases digits.len() - i,
    {
        let d = (digits[i] as u32 - '0' as u32) as u64;
        assert(values.take(i + 1).drop_last() == values.take(i as int));
        assert(values.take(i + 1).last() == d);
        if acc > (u64::MAX - d) / 10 {
            proof {
                lemma_value_grows(values, i + 1);
            }
            return None;
        }
        acc = acc * 10 + d;
        i += 1;
    }
    assert(values.take(i as int) == values);
    Some(acc)
}

/// The value of a run of digits is at least the value of each run it
/// starts with.
pub proof fn lemma_value_grows(values: Seq<u8>, n: int)
    requires
        0 <= n <= values.len(),
    ensures
        nat_of(values) >= nat_of(values.take(n)),
    decreases values.len() - n,
{
    if n < values.len() {
        assert(values.take(n + 1).drop_last() == values.take(n));
        lemma_value_grows(values, n + 1);
    } else {
        assert(values.take(n) == values);
    }
}

/// Reads a natural number: digits, with no zero in front of other digits.
/// Text that does not start with a digit is left to another rule.
pub fn natural(reader: &mut Reader) -> (r: ParseResult<u64>)
    requires
        old(reader).wf(),
    ensures
        parsed(
            old(reader),
            final(reader),
            r,
            natural_at(old(reader).source(), old(reader).state.cursor as int),
        ),
        r matches Ok(v) ==> {
            &&& final(reader).state.cursor > old(reader).state.cursor
            &&& v as nat == nat_of(
                digit_values(
                    old(reader).text(
                        old(reader).state.cursor as int,
                        final(reader).state.cursor as int,
                    ),
                ),
            )
        },
{
    let start = reader.state;
    let save = Pos { line: start.pos.line, column: successor(start.pos.column) };
    let digits = reader.read_while(CharClass::Digit);
    let digits = chars_of(digits.as_str());
    if digits.len() == 0 {
        return Err(
            Error::new(start.pos, true, ParseError::Expecting { value: "natural".to_string() }),
        );
    }
    proof {
        lemma_run_of_digits(reader.buffer@, start.cursor as int, reader.state.cursor as int);
    }
    if digits[0] == '0' && digits.len() > 1 {
        return Err(
            Error::new(
                save,
                false,
                ParseError::Expecting { value: "natural".to_string() },
            ),
        );
    }
    match value_of_digits(&digits) {
        Some(v) => Ok(v),
        None => Err(
            Error::new(
                save,
                false,
                ParseError::Expecting { value: "natural".to_string() },
            ),
        ),
    }
}

/// Reads a number: an optional minus sign, digits, and optionally a point
/// and more digits. A whole number that does not fit in 64 bits is kept as
/// its text. Text that holds no digit after the optional sign is left to
/// another rule.
pub fn number(reader: &mut Reader) -> (r: ParseResult<Number>)
    requires
        old(reader).wf(),
    ensures
        parsed(
            old(reader),
            final(reader),
            r,
            number_at(old(reader).source(), old(reader).state.cursor as int),
        ),
        r matches Ok(n) ==> number_source(n) == number_view_at(
            old(reader).source(),
            old(reader).state.cursor as int,
        ),
        match r {
            Ok(Number::Integer(_)) => final(reader).state.cursor > old(reader).state.cursor,
            Ok(Number::Float(f)) => {
                &&& final(reader).state.cursor > old(reader).state.cursor
                &&& f.value.wf()
                &&& f.encoded@ == old(reader).text(
                    old(reader).state.cursor as int,
                    final(reader).state.cursor as int,
                )
            },
            Ok(Number::BigInteger(s)) => {
                &&& final(reader).state.cursor > old(reader).state.cursor
                &&& s@ == old(reader).text(
                    old(reader).state.cursor as int,
                    final(reader).state.cursor as int,
                )
            },
            Err(_) => true,
        },
{
    proof {
        reveal_strlit("-");
        reveal_strlit(".");
    }
    let start = reader.state;
    let negative = try_literal("-", reader).is_ok();
    proof {
        let i = start.cursor as int;
        if negative {
            assert(reader.buffer@.subrange(i, i + 1)[0] == '-');
        } else if i < reader.buffer@.len() && reader.buffer@[i] == '-' {
            assert(reader.buffer@.subrange(i, i + 1) =~= "-"@);
        }
        lemma_run_end(reader.buffer@, CharClass::Digit, reader.state.cursor as int);
    }
    let int_start = reader.state.cursor;
    let integer_text = reader.read_while(CharClass::Digit);
    let integer_digits = chars_of(integer_text.as_str());
    if integer_digits.len() == 0 {
        let pos = reader.state.pos;
        reader.restore(start);
        return Err(Error::new(pos, true, ParseError::Expecting { value: "number".to_string() }));
    }
    proof {
        lemma_run_of_digits(reader.buffer@, int_start as int, reader.state.cursor as int);
    }
    if integer_digits.len() > 1 && integer_digits[0] == '0' {
        return Err(
            Error::new(
                reader.state.pos,
                false,
                ParseError::Expecting { value: "natural".to_string() },
            ),
        );
    }
    let point = reader.state.cursor;
    let dotted = try_literal(".", reader).is_ok();
    proof {
        let n = point as int;
        if dotted {
            assert(reader.buffer@.subrange(n, n + 1)[0] == '.');
        } else if n < reader.buffer@.len() && reader.buffer@[n] == '.' {
            assert(reader.buffer@.subrange(n, n + 1) =~= "."@);
        }
    }
    if dotted {
        let save = reader.state;
        let decimal_text = reader.read_while(CharClass::Digit);
        let decimal_digits = chars_of(decimal_text.as_str());
        if decimal_digits.len() == 0 {
            return Err(
                Error::new(
                    save.pos,
                    false,
                    ParseError::Expecting { value: "natural".to_string() },
                ),
            );
        }
        proof {
            lemma_run_of_digits(reader.buffer@, save.cursor as int, reader.state.cursor as int);
        }
        let value = Decimal::from_parts(negative, &integer_digits, &decimal_digits);
        let encoded = reader.peek_back(start.cursor);
        Ok(Number::Float(Float { value, encoded }))
    } else {
        match value_of_digits(&integer_digits) {
            Some(v) => {
                if !negative && v <= i64::MAX as u64 {
                    Ok(Number::Integer(v as i64))
                } else if negative && v <= i64::MAX as u64 {
                    Ok(Number::Integer(-(v as i64)))
                } else if negative && v == i64::MAX as u64 + 1 {
                    Ok(Number::Integer(i64::MIN))
                } else {
                    Ok(Number::BigInteger(reader.peek_back(start.cursor)))
                }
            },
            None => Ok(Number::BigInteger(reader.peek_back(start.cursor))),
        }
    }
}

} // verus!
