//! Why the order of decimal numbers in normal form is the order of the
//! numbers they denote.

use vstd::prelude::*;

use crate::decimal::{
    all_digits, int_order, lex_order, nat_of, strip_leading, strip_trailing, DecimalView,
};

verus! {

/// Ten to the power of `n`.
pub open spec fn pow10(n: nat) -> nat
    decreases n,
{
    if n == 0 {
        1
    } else {
        10 * pow10((n - 1) as nat)
    }
}

impl DecimalView {
    /// The absolute value of the number, times ten to the power of `k`,
    /// where `k` is at least the number of digits of its fraction.
    pub open spec fn magnitude(self, k: nat) -> nat {
        nat_of(self.integer) * pow10(k) + nat_of(self.fraction) * pow10(
            (k - self.fraction.len()) as nat,
        )
    }

    /// The number, times ten to the power of `k`, where `k` is at least the
    /// number of digits of its fraction.
    pub open spec fn scaled(self, k: nat) -> int {
        if self.negative {
            -(self.magnitude(k) as int)
        } else {
            self.magnitude(k) as int
        }
    }
}

pub proof fn lemma_pow10_positive(n: nat)
    ensures
        pow10(n) >= 1,
    decreases n,
{
    if n > 0 {
        lemma_pow10_positive((n - 1) as nat);
    }
}

pub proof fn lemma_pow10_add(a: nat, b: nat)
    ensures
        pow10(a + b) == pow10(a) * pow10(b),
    decreases a,
{
    if a > 0 {
        lemma_pow10_add((a - 1) as nat, b);
        assert(pow10(a + b) == 10 * pow10((a - 1 + b) as nat));
        assert(10 * (pow10((a - 1) as nat) * pow10(b)) == (10 * pow10((a - 1) as nat)) * pow10(b))
            by (nonlinear_arith);
    } else {
        assert(pow10(a) * pow10(b) == pow10(b)) by (nonlinear_arith)
            requires
                pow10(a) == 1,
        ;
    }
}

pub proof fn lemma_pow10_monotonic(a: nat, b: nat)
    requires
        a <= b,
    ensures
        pow10(a) <= pow10(b),
    decreases b,
{
    if a < b {
        lemma_pow10_monotonic(a, (b - 1) as nat);
        lemma_pow10_positive((b - 1) as nat);
    }
}

/// A number of `n` digits is below ten to the power of `n`.
pub proof fn lemma_below_power(s: Seq<u8>)
    requires
        all_digits(s),
    ensures
        nat_of(s) < pow10(s.len()),
    decreases s.len(),
{
    if s.len() > 0 {
        assert(all_digits(s.drop_last()));
        lemma_below_power(s.drop_last());
    }
}

/// The number of a digit sequence is its first digit times a power of ten,
/// plus the number of the rest.
pub proof fn lemma_from_the_left(s: Seq<u8>)
    requires
        s.len() > 0,
    ensures
        nat_of(s) == s[0] * pow10((s.len() - 1) as nat) + nat_of(s.skip(1)),
    decreases s.len(),
{
    if s.len() == 1 {
        assert(s.drop_last().len() == 0);
        assert(s.skip(1).len() == 0);
        assert(nat_of(s.drop_last()) == 0);
        assert(nat_of(s.skip(1)) == 0);
        assert(pow10(0) == 1);
        assert(nat_of(s) == s.last() as nat);
    } else {
        let shorter = s.drop_last();
        lemma_from_the_left(shorter);
        assert(shorter[0] == s[0]);
        assert(shorter.skip(1) =~= s.skip(1).drop_last());
        assert(s.skip(1).last() == s.last());
        let p = pow10((s.len() - 2) as nat);
        assert(pow10((s.len() - 1) as nat) == 10 * p);
        assert(nat_of(s) == nat_of(shorter) * 10 + s.last());
        assert(nat_of(s.skip(1)) == nat_of(s.skip(1).drop_last()) * 10 + s.skip(1).last());
        assert((s[0] * p + nat_of(shorter.skip(1))) * 10 + s.last() == s[0] * (10 * p) + (nat_of(
            shorter.skip(1),
        ) * 10 + s.last())) by (nonlinear_arith);
    }
}

/// A number without a zero in front is at least ten to the power of one
/// less than the number of its digits.
pub proof fn lemma_at_least_power(s: Seq<u8>)
    requires
        s.len() > 0,
        s[0] != 0,
    ensures
        nat_of(s) >= pow10((s.len() - 1) as nat),
{
    lemma_from_the_left(s);
    let p = pow10((s.len() - 1) as nat);
    assert(s[0] * p >= p) by (nonlinear_arith)
        requires
            s[0] >= 1,
    ;
}

/// Among digit sequences of one length, the dictionary order is the order
/// of the numbers.
pub proof fn lemma_same_length_order(s: Seq<u8>, t: Seq<u8>)
    requires
        all_digits(s),
        all_digits(t),
        s.len() == t.len(),
    ensures
        lex_order(s, t) == int_order(nat_of(s) as int, nat_of(t) as int),
    decreases s.len(),
{
    if s.len() > 0 {
        lemma_from_the_left(s);
        lemma_from_the_left(t);
        assert(all_digits(s.skip(1))) by {
            assert forall|i: int| 0 <= i < s.skip(1).len() implies #[trigger] s.skip(1)[i] <= 9 by {
                assert(s.skip(1)[i] == s[i + 1]);
            }
        }
        assert(all_digits(t.skip(1))) by {
            assert forall|i: int| 0 <= i < t.skip(1).len() implies #[trigger] t.skip(1)[i] <= 9 by {
                assert(t.skip(1)[i] == t[i + 1]);
            }
        }
        lemma_below_power(s.skip(1));
        lemma_below_power(t.skip(1));
        lemma_same_length_order(s.skip(1), t.skip(1));
        let p = pow10((s.len() - 1) as nat);
        let a = s[0] as int;
        let b = t[0] as int;
        let x = nat_of(s.skip(1)) as int;
        let y = nat_of(t.skip(1)) as int;
        if a < b {
            assert(a * p + x < b * p + y) by (nonlinear_arith)
                requires
                    a < b,
                    0 <= x < p,
                    0 <= y,
            ;
        } else if a > b {
            assert(a * p + x > b * p + y) by (nonlinear_arith)
                requires
                    a > b,
                    0 <= y < p,
                    0 <= x,
            ;
        }
    }
}

/// A digit sequence followed by `n` zeros denotes its number times ten to
/// the power of `n`.
pub proof fn lemma_padded(s: Seq<u8>, n: nat)
    ensures
        nat_of(s + Seq::new(n, |i: int| 0u8)) == nat_of(s) * pow10(n),
    decreases n,
{
    let zeros = Seq::new(n, |i: int| 0u8);
    if n == 0 {
        assert(s + zeros =~= s);
        assert(nat_of(s) * pow10(0) == nat_of(s)) by (nonlinear_arith)
            requires
                pow10(0) == 1,
        ;
    } else {
        let fewer = Seq::new((n - 1) as nat, |i: int| 0u8);
        lemma_padded(s, (n - 1) as nat);
        assert((s + zeros).drop_last() =~= s + fewer);
        assert((s + zeros).last() == 0);
        assert((nat_of(s) * pow10((n - 1) as nat)) * 10 == nat_of(s) * (10 * pow10(
            (n - 1) as nat,
        ))) by (nonlinear_arith);
    }
}

/// The dictionary order of a digit sequence and of the same sequence with
/// zeros after it.
pub proof fn lemma_order_of_padded(s: Seq<u8>, t: Seq<u8>, n: nat)
    requires
        t.len() == s.len() + n,
    ensures
        lex_order(s + Seq::new(n, |i: int| 0u8), t) == if lex_order(s, t) == -1 && s.is_prefix_of(
            t,
        ) && t.subrange(s.len() as int, t.len() as int) =~= Seq::new(n, |i: int| 0u8) {
            0
        } else {
            lex_order(s, t)
        },
    decreases s.len(),
{
    let zeros = Seq::new(n, |i: int| 0u8);
    if s.len() == 0 {
        assert(s + zeros =~= zeros);
        assert(t.subrange(0, t.len() as int) =~= t);
        lemma_zeros_order(t, n);
    } else {
        assert((s + zeros)[0] == s[0]);
        assert((s + zeros).skip(1) =~= s.skip(1) + zeros);
        if s[0] == t[0] {
            lemma_order_of_padded(s.skip(1), t.skip(1), n);
            assert(s.skip(1).is_prefix_of(t.skip(1)) == s.is_prefix_of(t)) by {
                if s.is_prefix_of(t) {
                    assert(s.skip(1) =~= t.skip(1).subrange(0, s.len() - 1));
                }
                if s.skip(1).is_prefix_of(t.skip(1)) {
                    assert(s =~= t.subrange(0, s.len() as int)) by {
                        assert forall|i: int| 0 <= i < s.len() implies s[i] == t[i] by {
                            if i > 0 {
                                assert(s.skip(1)[i - 1] == t.skip(1).subrange(0, s.len() - 1)[i
                                    - 1]);
                            }
                        }
                    }
                }
            }
            assert(t.skip(1).subrange(s.len() - 1, t.len() - 1) =~= t.subrange(
                s.len() as int,
                t.len() as int,
            ));
        } else {
            assert(!s.is_prefix_of(t)) by {
                if s.is_prefix_of(t) {
                    assert(s[0] == t.subrange(0, s.len() as int)[0]);
                }
            }
        }
    }
}

/// How a run of zeros stands to a digit sequence of the same length.
pub proof fn lemma_zeros_order(t: Seq<u8>, n: nat)
    requires
        t.len() == n,
    ensures
        lex_order(Seq::new(n, |i: int| 0u8), t) == if t =~= Seq::new(n, |i: int| 0u8) {
            0int
        } else {
            -1
        },
    decreases n,
{
    let zeros = Seq::new(n, |i: int| 0u8);
    if n > 0 {
        let fewer = Seq::new((n - 1) as nat, |i: int| 0u8);
        assert(zeros.skip(1) =~= fewer);
        lemma_zeros_order(t.skip(1), (n - 1) as nat);
        if t[0] == 0 {
            if t.skip(1) =~= fewer {
                assert forall|i: int| 0 <= i < t.len() implies t[i] == zeros[i] by {
                    if i > 0 {
                        assert(t[i] == t.skip(1)[i - 1]);
                    }
                }
                assert(t =~= zeros);
            } else {
                assert(!(t =~= zeros)) by {
                    if t =~= zeros {
                        assert(t.skip(1) =~= fewer);
                    }
                }
            }
        } else {
            assert(!(t =~= zeros)) by {
                if t =~= zeros {
                    assert(t[0] == zeros[0]);
                }
            }
        }
    }
}

/// Turning two digit sequences around turns their order around.
pub proof fn lemma_order_turned(s: Seq<u8>, t: Seq<u8>)
    ensures
        lex_order(t, s) == -lex_order(s, t),
    decreases s.len(),
{
    if s.len() > 0 && t.len() > 0 && s[0] == t[0] {
        lemma_order_turned(s.skip(1), t.skip(1));
    }
}

/// The fraction digits of a number in normal form denote at least one when
/// there are any.
pub proof fn lemma_fraction_positive(f: Seq<u8>)
    requires
        f.len() > 0,
        f.last() != 0,
    ensures
        nat_of(f) >= 1,
{
}

/// The value of `f` as a fraction of `k` digits.
pub open spec fn fraction_value(f: Seq<u8>, k: nat) -> nat {
    nat_of(f) * pow10((k - f.len()) as nat)
}

/// A fraction of `k` digits is below ten to the power of `k`.
pub proof fn lemma_fraction_below(f: Seq<u8>, k: nat)
    requires
        all_digits(f),
        k >= f.len(),
    ensures
        fraction_value(f, k) < pow10(k),
{
    lemma_below_power(f);
    lemma_pow10_add(f.len(), (k - f.len()) as nat);
    lemma_pow10_positive((k - f.len()) as nat);
    let x = nat_of(f) as int;
    let p = pow10(f.len()) as int;
    let q = pow10((k - f.len()) as nat) as int;
    assert(x * q < p * q) by (nonlinear_arith)
        requires
            x < p,
            q >= 1,
    ;
}

/// The dictionary order of two fractions without zeros at their end, the
/// first not longer than the second, is the order of their values.
proof fn lemma_fraction_order_shorter(f: Seq<u8>, g: Seq<u8>, k: nat)
    requires
        all_digits(f),
        all_digits(g),
        f.len() <= g.len() <= k,
        g.len() > 0 ==> g.last() != 0,
    ensures
        lex_order(f, g) == int_order(fraction_value(f, k) as int, fraction_value(g, k) as int),
{
    let n = (g.len() - f.len()) as nat;
    let zeros = Seq::new(n, |i: int| 0u8);
    let padded = f + zeros;
    lemma_order_of_padded(f, g, n);
    // A proper prefix of `g` cannot be followed by zeros only.
    if lex_order(f, g) == -1 && f.is_prefix_of(g) && g.subrange(f.len() as int, g.len() as int)
        =~= zeros {
        if n > 0 {
            assert(g.subrange(f.len() as int, g.len() as int)[n - 1] == g.last());
            assert(zeros[n - 1] == 0);
        } else {
            assert(f =~= g.subrange(0, f.len() as int));
            assert(g.subrange(0, g.len() as int) =~= g);
            lemma_order_same(f);
        }
    }
    assert(lex_order(padded, g) == lex_order(f, g));
    assert(all_digits(padded)) by {
        assert forall|i: int| 0 <= i < padded.len() implies #[trigger] padded[i] <= 9 by {
            if i < f.len() {
                assert(padded[i] == f[i]);
            } else {
                assert(padded[i] == 0);
            }
        }
    }
    lemma_same_length_order(padded, g);
    lemma_padded(f, n);
    // Both values are the numbers of `padded` and of `g` times one power of ten.
    let q = pow10((k - g.len()) as nat);
    lemma_pow10_positive((k - g.len()) as nat);
    lemma_pow10_add(n, (k - g.len()) as nat);
    assert(fraction_value(f, k) == nat_of(padded) * q) by {
        assert(n + (k - g.len()) == k - f.len());
        let x = nat_of(f) as int;
        let a = pow10(n) as int;
        let b = q as int;
        assert(x * (a * b) == (x * a) * b) by (nonlinear_arith);
    }
    let x = nat_of(padded) as int;
    let y = nat_of(g) as int;
    let b = q as int;
    assert(int_order(x * b, y * b) == int_order(x, y)) by (nonlinear_arith)
        requires
            b >= 1,
    ;
}

/// A digit sequence stands to itself as equal.
pub proof fn lemma_order_same(s: Seq<u8>)
    ensures
        lex_order(s, s) == 0,
    decreases s.len(),
{
    if s.len() > 0 {
        lemma_order_same(s.skip(1));
    }
}

/// The dictionary order of two fractions without zeros at their end is the
/// order of their values.
pub proof fn lemma_fraction_order(f: Seq<u8>, g: Seq<u8>, k: nat)
    requires
        all_digits(f),
        all_digits(g),
        f.len() <= k,
        g.len() <= k,
        f.len() > 0 ==> f.last() != 0,
        g.len() > 0 ==> g.last() != 0,
    ensures
        lex_order(f, g) == int_order(fraction_value(f, k) as int, fraction_value(g, k) as int),
{
    if f.len() <= g.len() {
        lemma_fraction_order_shorter(f, g, k);
    } else {
        lemma_fraction_order_shorter(g, f, k);
        lemma_order_turned(g, f);
    }
}

/// The order of the absolute values of two numbers in normal form is the
/// order of the absolute values that they denote.
pub proof fn lemma_magnitude_order(a: DecimalView, b: DecimalView, k: nat)
    requires
        a.wf(),
        b.wf(),
        k >= a.fraction.len(),
        k >= b.fraction.len(),
    ensures
        a.magnitude_order(b) == int_order(a.magnitude(k) as int, b.magnitude(k) as int),
{
    let p = pow10(k) as int;
    let ia = nat_of(a.integer) as int;
    let ib = nat_of(b.integer) as int;
    let fa = fraction_value(a.fraction, k) as int;
    let fb = fraction_value(b.fraction, k) as int;
    lemma_fraction_below(a.fraction, k);
    lemma_fraction_below(b.fraction, k);
    lemma_pow10_positive(k);
    lemma_below_power(a.integer);
    lemma_below_power(b.integer);
    if a.integer.len() < b.integer.len() {
        lemma_at_least_power(b.integer);
        lemma_pow10_monotonic(a.integer.len(), (b.integer.len() - 1) as nat);
        assert(ia < ib);
    } else if a.integer.len() > b.integer.len() {
        lemma_at_least_power(a.integer);
        lemma_pow10_monotonic(b.integer.len(), (a.integer.len() - 1) as nat);
        assert(ia > ib);
    } else {
        lemma_same_length_order(a.integer, b.integer);
        lemma_fraction_order(a.fraction, b.fraction, k);
    }
    if ia < ib {
        assert(ia * p + fa < ib * p + fb) by (nonlinear_arith)
            requires
                ia < ib,
                0 <= fa < p,
                0 <= fb,
        ;
    } else if ia > ib {
        assert(ia * p + fa > ib * p + fb) by (nonlinear_arith)
            requires
                ia > ib,
                0 <= fb < p,
                0 <= fa,
        ;
    }
}

/// A number in normal form that is marked negative denotes a number below
/// zero.
pub proof fn lemma_negative_is_below_zero(a: DecimalView, k: nat)
    requires
        a.wf(),
        a.negative,
        k >= a.fraction.len(),
    ensures
        a.magnitude(k) >= 1,
{
    lemma_pow10_positive(k);
    lemma_pow10_positive((k - a.fraction.len()) as nat);
    let p = pow10(k) as int;
    let q = pow10((k - a.fraction.len()) as nat) as int;
    let i = nat_of(a.integer) as int;
    let f = nat_of(a.fraction) as int;
    if a.integer.len() > 0 {
        lemma_at_least_power(a.integer);
        lemma_pow10_positive((a.integer.len() - 1) as nat);
        assert(i * p + f * q >= 1) by (nonlinear_arith)
            requires
                i >= 1,
                p >= 1,
                f >= 0,
                q >= 1,
        ;
    } else {
        lemma_fraction_positive(a.fraction);
        assert(i * p + f * q >= 1) by (nonlinear_arith)
            requires
                i >= 0,
                p >= 1,
                f >= 1,
                q >= 1,
        ;
    }
}

/// The order of two decimal numbers in normal form is the order of the
/// numbers that they denote: both scaled by one power of ten that makes
/// them whole, they compare as integers.
pub proof fn law_order_is_numeric(a: DecimalView, b: DecimalView, k: nat)
    requires
        a.wf(),
        b.wf(),
        k >= a.fraction.len(),
        k >= b.fraction.len(),
    ensures
        a.order(b) == int_order(a.scaled(k), b.scaled(k)),
{
    if a.negative && !b.negative {
        lemma_negative_is_below_zero(a, k);
    } else if !a.negative && b.negative {
        lemma_negative_is_below_zero(b, k);
    } else if a.negative {
        lemma_magnitude_order(b, a, k);
    } else {
        lemma_magnitude_order(a, b, k);
    }
}

/// The floor and the ceiling of a decimal number in normal form bracket the
/// number that it denotes: scaled by a power of ten that makes the number
/// whole, the floor is not above it and the ceiling is not below it, and
/// they are the number itself when it has no fraction.
pub proof fn law_floor_and_ceiling(a: DecimalView, k: nat)
    requires
        a.wf(),
        k >= a.fraction.len(),
    ensures
        a.floor() * pow10(k) <= a.scaled(k) <= a.ceil() * pow10(k),
        a.scaled(k) < (a.floor() + 1) * pow10(k),
        (a.ceil() - 1) * pow10(k) < a.scaled(k),
        a.fraction.len() == 0 ==> a.floor() == a.ceil(),
        a.fraction.len() > 0 ==> a.ceil() == a.floor() + 1,
{
    let p = pow10(k) as int;
    let i = nat_of(a.integer) as int;
    let f = fraction_value(a.fraction, k) as int;
    lemma_fraction_below(a.fraction, k);
    lemma_pow10_positive(k);
    if a.fraction.len() > 0 {
        lemma_fraction_positive(a.fraction);
        lemma_pow10_positive((k - a.fraction.len()) as nat);
        let x = nat_of(a.fraction) as int;
        let q = pow10((k - a.fraction.len()) as nat) as int;
        assert(x * q >= 1) by (nonlinear_arith)
            requires
                x >= 1,
                q >= 1,
        ;
    } else {
        assert(nat_of(a.fraction) == 0);
        assert(f == 0) by (nonlinear_arith)
            requires
                f == 0 * pow10((k - a.fraction.len()) as nat),
        ;
    }
    assert((i + 1) * p == i * p + p) by (nonlinear_arith);
    assert((-i - 1) * p == -(i * p) - p) by (nonlinear_arith);
    assert((-i) * p == -(i * p)) by (nonlinear_arith);
    assert((-i + 1) * p == -(i * p) + p) by (nonlinear_arith);
    assert((i - 1) * p == i * p - p) by (nonlinear_arith);
}

/// Zeros in front of a digit sequence do not change the number that it
/// denotes.
pub proof fn law_leading_zeros(s: Seq<u8>)
    ensures
        nat_of(strip_leading(s)) == nat_of(s),
    decreases s.len(),
{
    if s.len() > 0 && s[0] == 0 {
        law_leading_zeros(s.skip(1));
        lemma_from_the_left(s);
        assert(s[0] * pow10((s.len() - 1) as nat) == 0) by (nonlinear_arith)
            requires
                s[0] == 0,
        ;
    }
}

/// Zeros at the end of the digits of a fraction do not change the fraction
/// that they denote.
pub proof fn law_trailing_zeros(f: Seq<u8>, k: nat)
    requires
        k >= f.len(),
    ensures
        strip_trailing(f).len() <= f.len(),
        fraction_value(strip_trailing(f), k) == fraction_value(f, k),
    decreases f.len(),
{
    if f.len() > 0 && f.last() == 0 {
        let shorter = f.drop_last();
        law_trailing_zeros(shorter, k);
        let x = nat_of(shorter) as int;
        let q = pow10((k - f.len()) as nat) as int;
        assert(pow10((k - shorter.len()) as nat) == 10 * q);
        assert((x * 10) * q == x * (10 * q)) by (nonlinear_arith);
    }
}

} // verus!
