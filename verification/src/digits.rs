//! Sequences of decimal digits and the numbers they denote.

use vstd::arithmetic::div_mod::{lemma_basic_div, lemma_div_denominator, lemma_div_non_zero};
use vstd::prelude::*;

verus! {

/// Ten to the power `e`.
pub open spec fn pow10(e: nat) -> nat
    decreases e,
{
    if e == 0 {
        1
    } else {
        10 * pow10((e - 1) as nat)
    }
}

/// Whether every element is a decimal digit.
pub open spec fn are_digits(digits: Seq<u8>) -> bool {
    forall|i: int| 0 <= i < digits.len() ==> digits[i] <= 9
}

/// The number that a sequence of decimal digits denotes, the most significant
/// digit first. The empty sequence denotes zero.
pub open spec fn digits_value(digits: Seq<u8>) -> nat
    decreases digits.len(),
{
    if digits.len() == 0 {
        0
    } else {
        10 * digits_value(digits.drop_last()) + digits.last() as nat
    }
}

/// The decimal digits of `n` without leading zeros; zero is the single digit 0.
pub open spec fn decimal_digits(n: nat) -> Seq<u8>
    decreases n,
{
    if n < 10 {
        seq![n as u8]
    } else {
        decimal_digits(n / 10).push((n % 10) as u8)
    }
}

/// A power of ten is at least one.
pub proof fn lemma_pow10_positive(e: nat)
    ensures
        pow10(e) >= 1,
    decreases e,
{
    if e > 0 {
        lemma_pow10_positive((e - 1) as nat);
    }
}

/// A larger exponent gives no smaller power.
pub proof fn lemma_pow10_monotone(a: nat, b: nat)
    requires
        a <= b,
    ensures
        pow10(a) <= pow10(b),
    decreases b,
{
    if a < b {
        lemma_pow10_monotone(a, (b - 1) as nat);
        lemma_pow10_positive((b - 1) as nat);
    }
}

/// Dividing by a power of ten and then by ten divides by the next power.
pub proof fn lemma_pow10_div_step(n: nat, e: nat)
    ensures
        (n / pow10(e)) / 10 == n / pow10(e + 1),
{
    lemma_pow10_positive(e);
    lemma_div_denominator(n as int, pow10(e) as int, 10);
    assert(pow10(e + 1) == 10 * pow10(e));
    assert(pow10(e) * 10 == 10 * pow10(e)) by (nonlinear_arith);
}

/// A quotient that has reached zero stays zero under larger powers of ten.
pub proof fn lemma_pow10_div_zero(n: nat, a: nat, b: nat)
    requires
        a <= b,
        n / pow10(a) == 0,
    ensures
        n / pow10(b) == 0,
{
    lemma_pow10_positive(a);
    lemma_pow10_monotone(a, b);
    if n >= pow10(a) {
        lemma_div_non_zero(n as int, pow10(a) as int);
    }
    lemma_basic_div(n as int, pow10(b) as int);
}

/// The decimal digits of a number are digits, denote the number, and start
/// with no zero unless the number is zero.
pub proof fn lemma_decimal_digits(n: nat)
    ensures
        are_digits(decimal_digits(n)),
        digits_value(decimal_digits(n)) == n,
        decimal_digits(n).len() >= 1,
        n > 0 ==> decimal_digits(n)[0] != 0,
    decreases n,
{
    if n < 10 {
        let s = decimal_digits(n);
        assert(s.drop_last().len() == 0);
        assert(digits_value(s) == 10 * digits_value(s.drop_last()) + s.last() as nat);
    } else {
        lemma_decimal_digits(n / 10);
        let s = decimal_digits(n);
        assert(s.drop_last() =~= decimal_digits(n / 10));
        assert(s[0] == decimal_digits(n / 10)[0]);
    }
}

/// A prefix extended by the next digit.
pub proof fn lemma_digits_value_take(digits: Seq<u8>, i: int)
    requires
        0 <= i < digits.len(),
    ensures
        digits_value(digits.take(i + 1)) == 10 * digits_value(digits.take(i)) + digits[i] as nat,
{
    assert(digits.take(i + 1).drop_last() =~= digits.take(i));
}

/// A longer prefix denotes at least as much as a shorter one.
pub proof fn lemma_digits_value_prefix_ordered(digits: Seq<u8>, i: int, j: int)
    requires
        0 <= i <= j <= digits.len(),
    ensures
        digits_value(digits.take(i)) <= digits_value(digits.take(j)),
    decreases j - i,
{
    if i < j {
        lemma_digits_value_prefix_ordered(digits, i, j - 1);
        lemma_digits_value_take(digits, j - 1);
    }
}

/// Cutting digits off the end divides by the power of ten.
pub proof fn lemma_digits_value_prefix(digits: Seq<u8>, keep: int)
    requires
        are_digits(digits),
        0 <= keep <= digits.len(),
    ensures
        digits_value(digits.take(keep)) == digits_value(digits) / pow10(
            (digits.len() - keep) as nat,
        ),
    decreases digits.len() - keep,
{
    if keep == digits.len() {
        assert(digits.take(keep) =~= digits);
        assert(pow10(0) == 1);
        assert(digits_value(digits) / 1 == digits_value(digits));
    } else {
        let cut = (digits.len() - keep - 1) as nat;
        lemma_digits_value_prefix(digits, keep + 1);
        lemma_digits_value_take(digits, keep);
        lemma_pow10_div_step(digits_value(digits), cut);
        let next = digits_value(digits.take(keep + 1));
        assert(next == digits_value(digits) / pow10(cut));
        assert(next / 10 == digits_value(digits.take(keep))) by {
            assert(digits[keep] <= 9);
        }
        assert(cut + 1 == (digits.len() - keep) as nat);
        assert(digits_value(digits.take(keep)) == digits_value(digits) / pow10(cut + 1));
    }
}

/// Zeros in front change nothing.
pub proof fn lemma_digits_value_leading_zeros(digits: Seq<u8>, lead: int)
    requires
        0 <= lead <= digits.len(),
        forall|i: int| 0 <= i < lead ==> digits[i] == 0,
    ensures
        digits_value(digits) == digits_value(digits.skip(lead)),
    decreases digits.len(),
{
    if lead == digits.len() {
        assert(digits.skip(lead).len() == 0);
        lemma_digits_value_zeros(digits);
    } else {
        lemma_digits_value_leading_zeros(digits.drop_last(), lead);
        assert(digits.drop_last().skip(lead) =~= digits.skip(lead).drop_last());
    }
}

/// A sequence of zeros denotes zero.
pub proof fn lemma_digits_value_zeros(digits: Seq<u8>)
    requires
        forall|i: int| 0 <= i < digits.len() ==> digits[i] == 0,
    ensures
        digits_value(digits) == 0,
    decreases digits.len(),
{
    if digits.len() > 0 {
        lemma_digits_value_zeros(digits.drop_last());
    }
}

/// Digits without a leading zero are the digits of what they denote.
pub proof fn lemma_decimal_digits_of_value(digits: Seq<u8>)
    requires
        are_digits(digits),
        digits.len() >= 1,
        digits[0] != 0 || digits.len() == 1,
    ensures
        decimal_digits(digits_value(digits)) == digits,
    decreases digits.len(),
{
    let value = digits_value(digits);
    let front = digits.drop_last();
    if digits.len() == 1 {
        assert(front.len() == 0);
        assert(digits_value(front) == 0);
        assert(value == digits[0]);
        assert(decimal_digits(value) =~= digits);
    } else {
        lemma_decimal_digits_of_value(front);
        assert(digits_value(front) >= 1) by {
            if front.len() == 1 {
                assert(front.drop_last().len() == 0);
            } else {
                lemma_digits_value_prefix_ordered(front, 1, front.len() as int);
                assert(front.take(front.len() as int) =~= front);
                lemma_digits_value_take(front, 0);
            }
        }
        assert(value / 10 == digits_value(front));
        assert(value % 10 == digits.last());
        assert(decimal_digits(value) =~= digits);
    }
}

/// Zeros at the end multiply by the power of ten.
pub proof fn lemma_digits_value_push_zero(digits: Seq<u8>)
    ensures
        digits_value(digits.push(0)) == 10 * digits_value(digits),
{
    assert(digits.push(0).drop_last() =~= digits);
}

} // verus!
