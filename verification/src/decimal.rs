//! Exact decimal numbers: the fractional numbers of the mock language.
//!
//! A number is kept as its sign and its decimal digits, so that rounding to
//! an integer and ordering never lose precision.

use vstd::prelude::*;

use crate::text::chars_of;

verus! {

/// A finite decimal number in normal form: no leading zero in the integer
/// part, no trailing zero in the fraction, and zero is never negative.
#[derive(Clone, Debug, PartialEq, Eq)]
pub struct Decimal {
    pub negative: bool,
    /// Digits before the point, most significant first; empty for zero.
    pub integer: Vec<u8>,
    /// Digits after the point; empty for a whole number.
    pub fraction: Vec<u8>,
}

/// What a [`Decimal`] holds, as plain sequences.
pub struct DecimalView {
    pub negative: bool,
    pub integer: Seq<u8>,
    pub fraction: Seq<u8>,
}

impl View for Decimal {
    type V = DecimalView;

    open spec fn view(&self) -> DecimalView {
        DecimalView { negative: self.negative, integer: self.integer@, fraction: self.fraction@ }
    }
}

/// Every element is a decimal digit.
pub open spec fn all_digits(s: Seq<u8>) -> bool {
    forall|i: int| 0 <= i < s.len() ==> #[trigger] s[i] <= 9
}

/// The number that a digit sequence denotes, most significant digit first.
pub open spec fn nat_of(s: Seq<u8>) -> nat
    decreases s.len(),
{
    if s.len() == 0 {
        0
    } else {
        nat_of(s.drop_last()) * 10 + s.last() as nat
    }
}

/// `s` without its leading zeros.
pub open spec fn strip_leading(s: Seq<u8>) -> Seq<u8>
    decreases s.len(),
{
    if s.len() > 0 && s[0] == 0 {
        strip_leading(s.skip(1))
    } else {
        s
    }
}

/// `s` without its trailing zeros.
pub open spec fn strip_trailing(s: Seq<u8>) -> Seq<u8>
    decreases s.len(),
{
    if s.len() > 0 && s.last() == 0 {
        strip_trailing(s.drop_last())
    } else {
        s
    }
}

/// The value of an ASCII digit character, or 0 for any other character.
pub open spec fn digit_value(c: char) -> u8 {
    if '0' <= c && c <= '9' {
        (c as u32 - '0' as u32) as u8
    } else {
        0
    }
}

pub open spec fn is_digit(c: char) -> bool {
    '0' <= c && c <= '9'
}

pub open spec fn all_digit_chars(s: Seq<char>) -> bool {
    forall|i: int| 0 <= i < s.len() ==> is_digit(#[trigger] s[i])
}

/// The digit values of a sequence of digit characters.
pub open spec fn digit_values(s: Seq<char>) -> Seq<u8> {
    Seq::new(s.len(), |i: int| digit_value(s[i]))
}

/// Dictionary order of two digit sequences: -1, 0 or 1. A proper prefix comes
/// before the longer sequence.
pub open spec fn lex_order(s: Seq<u8>, t: Seq<u8>) -> int
    decreases s.len(),
{
    if s.len() == 0 {
        if t.len() == 0 {
            0
        } else {
            -1
        }
    } else if t.len() == 0 {
        1
    } else if s[0] < t[0] {
        -1
    } else if s[0] > t[0] {
        1
    } else {
        lex_order(s.skip(1), t.skip(1))
    }
}

/// Order of two integers: -1, 0 or 1.
pub open spec fn int_order(a: int, b: int) -> int {
    if a < b {
        -1
    } else if a > b {
        1
    } else {
        0
    }
}

impl DecimalView {
    /// The normal form that ordering relies on.
    pub open spec fn wf(self) -> bool {
        &&& all_digits(self.integer)
        &&& all_digits(self.fraction)
        &&& (self.integer.len() > 0 ==> self.integer[0] != 0)
        &&& (self.fraction.len() > 0 ==> self.fraction.last() != 0)
        &&& (self.negative ==> self.integer.len() > 0 || self.fraction.len() > 0)
    }

    /// The whole part of the absolute value.
    pub open spec fn whole(self) -> nat {
        nat_of(self.integer)
    }

    /// The greatest integer that is not above the number.
    pub open spec fn floor(self) -> int {
        if !self.negative {
            self.whole() as int
        } else if self.fraction.len() == 0 {
            -(self.whole() as int)
        } else {
            -(self.whole() as int) - 1
        }
    }

    /// The least integer that is not below the number.
    pub open spec fn ceil(self) -> int {
        if self.negative {
            -(self.whole() as int)
        } else if self.fraction.len() == 0 {
            self.whole() as int
        } else {
            self.whole() as int + 1
        }
    }

    /// Order of the absolute values of two numbers in normal form: -1, 0 or 1.
    pub open spec fn magnitude_order(self, other: DecimalView) -> int {
        if self.integer.len() < other.integer.len() {
            -1
        } else if self.integer.len() > other.integer.len() {
            1
        } else if lex_order(self.integer, other.integer) != 0 {
            lex_order(self.integer, other.integer)
        } else {
            lex_order(self.fraction, other.fraction)
        }
    }

    /// Order of two numbers in normal form: -1 when `self` is the smaller,
    /// 0 when they are equal, 1 when it is the larger.
    pub open spec fn order(self, other: DecimalView) -> int {
        if self.negative && !other.negative {
            -1
        } else if !self.negative && other.negative {
            1
        } else if self.negative {
            other.magnitude_order(self)
        } else {
            self.magnitude_order(other)
        }
    }
}

impl Decimal {
    /// The normal form that ordering relies on.
    pub open spec fn wf(&self) -> bool {
        self@.wf()
    }

    /// The number written as `integer.fraction`, with a minus sign in front
    /// when `negative` is set. Both parts hold ASCII digits only.
    pub fn from_parts(negative: bool, integer: &Vec<char>, fraction: &Vec<char>) -> (r: Decimal)
        requires
            all_digit_chars(integer@),
            all_digit_chars(fraction@),
        ensures
            r.wf(),
            r.integer@ == strip_leading(digit_values(integer@)),
            r.fraction@ == strip_trailing(digit_values(fraction@)),
            r.negative == (negative && (r.integer@.len() > 0 || r.fraction@.len() > 0)),
    {
        let ghost iv = digit_values(integer@);
        let ghost fv = digit_values(fraction@);
        let mut start: usize = 0;
        assert(iv.skip(0) == iv);
        while start < integer.len() && integer[start] == '0'
            invariant
                start <= integer.len(),
                strip_leading(iv) == strip_leading(iv.skip(start as int)),
                iv == digit_values(integer@),
            decreases integer.len() - start,
        {
            assert(iv.skip(start as int)[0] == 0);
            assert(iv.skip(start as int).skip(1) == iv.skip(start as int + 1));
            start += 1;
        }
        let mut int_digits: Vec<u8> = Vec::new();
        let mut i: usize = start;
        while i < integer.len()
            invariant
                start <= i <= integer.len(),
                iv == digit_values(integer@),
                all_digit_chars(integer@),
                int_digits@ == iv.subrange(start as int, i as int),
            decreases integer.len() - i,
        {
            let c = integer[i];
            int_digits.push((c as u32 - '0' as u32) as u8);
            i += 1;
        }
        assert(int_digits@ == iv.skip(start as int));
        let mut end: usize = fraction.len();
        assert(fv.take(fv.len() as int) == fv);
        while end > 0 && fraction[end - 1] == '0'
            invariant
                end <= fraction.len(),
                strip_trailing(fv) == strip_trailing(fv.take(end as int)),
                fv == digit_values(fraction@),
            decreases end,
        {
            assert(fv.take(end as int).last() == 0);
            assert(fv.take(end as int).drop_last() == fv.take(end as int - 1));
            end -= 1;
        }
        assert(fv.take(fv.len() as int) == fv);
        let mut frac_digits: Vec<u8> = Vec::new();
        let mut j: usize = 0;
        while j < end
            invariant
                j <= end <= fraction.len(),
                fv == digit_values(fraction@),
                all_digit_chars(fraction@),
                frac_digits@ == fv.subrange(0, j as int),
            decreases end - j,
        {
            let c = fraction[j];
            frac_digits.push((c as u32 - '0' as u32) as u8);
            j += 1;
        }
        assert(frac_digits@ == fv.take(end as int));
        let nonzero = int_digits.len() > 0 || frac_digits.len() > 0;
        Decimal { negative: negative && nonzero, integer: int_digits, fraction: frac_digits }
    }

    /// Reads a number written as an optional minus sign, digits, and
    /// optionally a point followed by digits. Any other text gives `None`.
    pub fn parse(text: &str) -> (r: Option<Decimal>)
        ensures
            r is Some <==> is_decimal_text(text@),
            r matches Some(d) ==> {
                &&& d.wf()
                &&& d.integer@ == strip_leading(digit_values(integer_text(text@)))
                &&& d.fraction@ == strip_trailing(digit_values(fraction_text(text@)))
                &&& d.negative == (sign_len(text@) == 1 && (d.integer@.len() > 0
                    || d.fraction@.len() > 0))
            },
    {
        let chars = chars_of(text);
        let n = chars.len();
        let negative = n > 0 && chars[0] == '-';
        let begin: usize = if negative { 1 } else { 0 };
        let mut i: usize = begin;
        let mut integer: Vec<char> = Vec::new();
        while i < n && chars[i] >= '0' && chars[i] <= '9'
            invariant
                begin <= i <= n,
                n == chars.len(),
                integer@ == chars@.subrange(begin as int, i as int),
                all_digit_chars(integer@),
                digits_end(chars@, begin as int) == digits_end(chars@, i as int),
            decreases n - i,
        {
            integer.push(chars[i]);
            i += 1;
        }
        if integer.len() == 0 {
            return None;
        }
        if i == n {
            let empty: Vec<char> = Vec::new();
            assert(fraction_text(text@) == empty@);
            return Some(Decimal::from_parts(negative, &integer, &empty));
        }
        if chars[i] != '.' {
            return None;
        }
        let point = i;
        i += 1;
        let mut fraction: Vec<char> = Vec::new();
        while i < n && chars[i] >= '0' && chars[i] <= '9'
            invariant
                point < i <= n,
                n == chars.len(),
                fraction@ == chars@.subrange(point + 1, i as int),
                all_digit_chars(fraction@),
                digits_end(chars@, point + 1) == digits_end(chars@, i as int),
            decreases n - i,
        {
            fraction.push(chars[i]);
            i += 1;
        }
        if fraction.len() == 0 || i != n {
            return None;
        }
        Some(Decimal::from_parts(negative, &integer, &fraction))
    }

    /// The whole part of the absolute value, or `LIMIT` when it is larger.
    fn capped_whole(&self) -> (r: u64)
        ensures
            r as nat == if self@.whole() < LIMIT { self@.whole() } else { LIMIT as nat },
    {
        let mut acc: u64 = 0;
        let mut i: usize = 0;
        while i < self.integer.len()
            invariant
                i <= self.integer.len(),
                acc <= LIMIT,
                acc as nat == if nat_of(self.integer@.take(i as int)) < LIMIT {
                    nat_of(self.integer@.take(i as int))
                } else {
                    LIMIT as nat
                },
            decreases self.integer.len() - i,
        {
            let d = self.integer[i];
            assert(self.integer@.take(i + 1).drop_last() == self.integer@.take(i as int));
            let next: u128 = acc as u128 * 10 + d as u128;
            acc = if next < LIMIT as u128 { next as u64 } else { LIMIT };
            i += 1;
        }
        assert(self.integer@.take(i as int) == self.integer@);
        acc
    }

    /// How the floor of the number stands to `p`: -1 when it is below, 0 when
    /// it is `p`, 1 when it is above.
    pub fn floor_order(&self, p: i64) -> (r: i8)
        ensures
            r as int == int_order(self@.floor(), p as int),
    {
        let whole = self.capped_whole() as i128;
        let floor: i128 = if !self.negative {
            whole
        } else if self.fraction.len() == 0 {
            -whole
        } else {
            -whole - 1
        };
        if floor < p as i128 {
            -1
        } else if floor > p as i128 {
            1
        } else {
            0
        }
    }

    /// How the ceiling of the number stands to `p`: -1 when it is below, 0
    /// when it is `p`, 1 when it is above.
    pub fn ceil_order(&self, p: i64) -> (r: i8)
        ensures
            r as int == int_order(self@.ceil(), p as int),
    {
        let whole = self.capped_whole() as i128;
        let ceil: i128 = if self.negative {
            -whole
        } else if self.fraction.len() == 0 {
            whole
        } else {
            whole + 1
        };
        if ceil < p as i128 {
            -1
        } else if ceil > p as i128 {
            1
        } else {
            0
        }
    }

    /// Compares the absolute values of two numbers.
    fn compare_magnitude(&self, other: &Decimal) -> (r: i8)
        ensures
            r as int == self@.magnitude_order(other@),
    {
        if self.integer.len() < other.integer.len() {
            -1
        } else if self.integer.len() > other.integer.len() {
            1
        } else {
            let whole = compare_digits(&self.integer, &other.integer);
            if whole != 0 {
                whole
            } else {
                compare_digits(&self.fraction, &other.fraction)
            }
        }
    }

    /// Compares two numbers: -1 when `self` is the smaller, 0 when they are
    /// equal, 1 when it is the larger.
    pub fn compare(&self, other: &Decimal) -> (r: i8)
        ensures
            r as int == self@.order(other@),
    {
        if self.negative && !other.negative {
            -1
        } else if !self.negative && other.negative {
            1
        } else if self.negative {
            other.compare_magnitude(self)
        } else {
            self.compare_magnitude(other)
        }
    }

    /// Whether the two numbers are the same number.
    pub fn equals(&self, other: &Decimal) -> (r: bool)
        ensures
            r == (self@ == other@),
    {
        self.negative == other.negative && same_digits(&self.integer, &other.integer)
            && same_digits(&self.fraction, &other.fraction)
    }
}

/// A magnitude beyond every `i64`, with either sign: 2^63 + 1.
pub const LIMIT: u64 = 0x8000_0000_0000_0001;

/// 1 when the text starts with a minus sign, else 0.
pub open spec fn sign_len(s: Seq<char>) -> int {
    if s.len() > 0 && s[0] == '-' {
        1
    } else {
        0
    }
}

/// The first index at or after `i` that holds no digit.
pub open spec fn digits_end(s: Seq<char>, i: int) -> int
    decreases s.len() - i,
{
    if 0 <= i < s.len() && is_digit(s[i]) {
        digits_end(s, i + 1)
    } else {
        i
    }
}

/// Whether the text is a decimal literal: an optional minus sign, one or more
/// digits, and optionally a point followed by one or more digits.
pub open spec fn is_decimal_text(s: Seq<char>) -> bool {
    let e = digits_end(s, sign_len(s));
    &&& e > sign_len(s)
    &&& (e == s.len() || (s[e] == '.' && e + 1 < s.len() && digits_end(s, e + 1) == s.len()))
}

/// The digits before the point of a decimal literal.
pub open spec fn integer_text(s: Seq<char>) -> Seq<char> {
    s.subrange(sign_len(s), digits_end(s, sign_len(s)))
}

/// The digits after the point of a decimal literal; empty when it has none.
pub open spec fn fraction_text(s: Seq<char>) -> Seq<char> {
    let e = digits_end(s, sign_len(s));
    if e < s.len() {
        s.subrange(e + 1, s.len() as int)
    } else {
        Seq::empty()
    }
}

/// Compares two digit vectors in dictionary order.
fn compare_digits(a: &Vec<u8>, b: &Vec<u8>) -> (r: i8)
    ensures
        r as int == lex_order(a@, b@),
{
    let mut i: usize = 0;
    assert(a@.skip(0) == a@ && b@.skip(0) == b@);
    while i < a.len() && i < b.len()
        invariant
            i <= a.len(),
            i <= b.len(),
            lex_order(a@, b@) == lex_order(a@.skip(i as int), b@.skip(i as int)),
        decreases a.len() - i,
    {
        assert(a@.skip(i as int)[0] == a@[i as int]);
        assert(b@.skip(i as int)[0] == b@[i as int]);
        if a[i] < b[i] {
            return -1;
        }
        if a[i] > b[i] {
            return 1;
        }
        assert(a@.skip(i as int).skip(1) == a@.skip(i + 1));
        assert(b@.skip(i as int).skip(1) == b@.skip(i + 1));
        i += 1;
    }
    if i < b.len() {
        -1
    } else if i < a.len() {
        1
    } else {
        0
    }
}

/// Whether two digit vectors hold the same digits.
fn same_digits(a: &Vec<u8>, b: &Vec<u8>) -> (r: bool)
    ensures
        r == (a@ == b@),
{
    if a.len() != b.len() {
        return false;
    }
    let mut i: usize = 0;
    while i < a.len()
        invariant
            i <= a.len(),
            a.len() == b.len(),
            a@.take(i as int) == b@.take(i as int),
        decreases a.len() - i,
    {
        if a[i] != b[i] {
            return false;
        }
        assert(a@.take(i + 1) == a@.take(i as int).push(a@[i as int]));
        assert(b@.take(i + 1) == b@.take(i as int).push(b@[i as int]));
        i += 1;
    }
    assert(a@.take(i as int) == a@);
    assert(b@.take(i as int) == b@);
    true
}

} // verus!
