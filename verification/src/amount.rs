//! Token quantities: raw integer amounts, the power-of-ten scale that turns
//! them into whole units, and decimal values of arbitrary precision.

use crate::digits::{
    are_digits, decimal_digits, digits_value, lemma_decimal_digits, lemma_digits_value_prefix,
    lemma_digits_value_prefix_ordered, lemma_digits_value_take, lemma_pow10_div_step,
    lemma_pow10_div_zero, lemma_pow10_positive, pow10,
};
use bigdecimal::num_bigint::BigInt;
use bigdecimal::BigDecimal;
use vstd::prelude::*;

verus! {

/// A non-negative decimal number: `unscaled / 10^scale`. A negative scale
/// stands for a multiplication.
pub struct Decimal {
    pub unscaled: nat,
    pub scale: int,
}

impl Decimal {
    /// The number without its fractional digits.
    pub open spec fn whole_part(self) -> nat {
        if self.scale >= 0 {
            self.unscaled / pow10(self.scale as nat)
        } else {
            self.unscaled * pow10((-self.scale) as nat)
        }
    }

    /// A hundred times the number, without what is left of fractional digits:
    /// the number cut to two decimal places, counted in hundredths.
    pub open spec fn hundredths(self) -> nat {
        if self.scale >= 2 {
            self.unscaled / pow10((self.scale - 2) as nat)
        } else {
            self.unscaled * pow10((2 - self.scale) as nat)
        }
    }

    /// The whole number `n`.
    pub open spec fn whole(n: nat) -> Decimal {
        Decimal { unscaled: n, scale: 0 }
    }
}

/// A scaled token quantity: a non-negative decimal value of arbitrary
/// precision, held as the decimal digits of its unscaled integer, the most
/// significant first, and the number of those digits that are fractional.
#[derive(Debug, PartialEq, Eq)]
pub struct ScaledAmount {
    digits: Vec<u8>,
    scale: i64,
}

impl Clone for ScaledAmount {
    fn clone(&self) -> (copy: ScaledAmount)
        ensures
            copy@ == self@,
            copy.spec_digits() == self.spec_digits(),
    {
        proof {
            use_type_invariant(self);
        }
        let digits = self.digits.clone();
        assert(digits@ =~= self.digits@);
        ScaledAmount { digits, scale: self.scale }
    }
}

impl View for ScaledAmount {
    type V = Decimal;

    closed spec fn view(&self) -> Decimal {
        Decimal { unscaled: digits_value(self.digits@), scale: self.scale as int }
    }
}

/// The whole units in `raw` at `decimals` decimal places: `raw / 10^decimals`
/// without the remainder.
pub fn scaled_units(raw: u128, decimals: u32) -> (units: u128)
    ensures
        units == raw as nat / pow10(decimals as nat),
{
    let mut units = raw;
    let mut done: u32 = 0;
    proof {
        assert(pow10(0) == 1);
        assert(raw as nat / 1 == raw as nat);
    }
    while done < decimals && units > 0
        invariant
            done <= decimals,
            units == raw as nat / pow10(done as nat),
        decreases decimals - done,
    {
        proof {
            lemma_pow10_div_step(raw as nat, done as nat);
        }
        units = units / 10;
        done = done + 1;
    }
    proof {
        if done < decimals {
            lemma_pow10_div_zero(raw as nat, done as nat, decimals as nat);
        }
    }
    units
}

/// Appends the decimal digits of `n` to `out`.
fn push_decimal_digits(n: u128, out: &mut Vec<u8>)
    ensures
        final(out)@ == old(out)@ + decimal_digits(n as nat),
    decreases n,
{
    if n >= 10 {
        push_decimal_digits(n / 10, out);
    }
    out.push((n % 10) as u8);
    assert(final(out)@ =~= old(out)@ + decimal_digits(n as nat));
}

/// The number that the first `keep` digits denote, where it fits 128 bits.
fn prefix_as_u128(digits: &Vec<u8>, keep: usize) -> (r: Option<u128>)
    requires
        keep <= digits.len(),
        are_digits(digits@),
    ensures
        r is Some <==> digits_value(digits@.take(keep as int)) <= u128::MAX,
        r matches Some(v) ==> v == digits_value(digits@.take(keep as int)),
{
    let mut value: u128 = 0;
    let mut i: usize = 0;
    proof {
        assert(digits@.take(0).len() == 0);
    }
    while i < keep
        invariant
            i <= keep <= digits.len(),
            are_digits(digits@),
            value == digits_value(digits@.take(i as int)),
        decreases keep - i,
    {
        let digit = digits[i];
        proof {
            lemma_digits_value_take(digits@, i as int);
            lemma_digits_value_prefix_ordered(digits@, i + 1, keep as int);
        }
        let shifted = match value.checked_mul(10) {
            Some(shifted) => shifted,
            None => {
                return None;
            },
        };
        value = match shifted.checked_add(digit as u128) {
            Some(sum) => sum,
            None => {
                return None;
            },
        };
        i = i + 1;
    }
    Some(value)
}

impl ScaledAmount {
    #[verifier::type_invariant]
    spec fn well_formed(self) -> bool {
        self.digits@.len() >= 1 && are_digits(self.digits@)
    }

    /// The amount with the given decimal digits of its unscaled integer, the
    /// most significant first, of which `scale` are fractional. `None` where
    /// `digits` is empty or holds anything but the digits 0 to 9.
    pub fn new(digits: Vec<u8>, scale: i64) -> (r: Option<ScaledAmount>)
        ensures
            r is Some <==> digits@.len() >= 1 && are_digits(digits@),
            r matches Some(amount) ==> amount@ == (Decimal {
                unscaled: digits_value(digits@),
                scale: scale as int,
            }) && amount.spec_digits() == digits@,
    {
        if digits.len() == 0 {
            return None;
        }
        let mut i: usize = 0;
        while i < digits.len()
            invariant
                i <= digits.len(),
                forall|k: int| 0 <= k < i ==> digits@[k] <= 9,
            decreases digits.len() - i,
        {
            if digits[i] > 9 {
                return None;
            }
            i = i + 1;
        }
        Some(ScaledAmount { digits, scale })
    }

    /// The whole number `raw`.
    pub fn from_raw(raw: u128) -> (amount: ScaledAmount)
        ensures
            amount@ == Decimal::whole(raw as nat),
            amount.spec_digits() == decimal_digits(raw as nat),
    {
        let mut digits: Vec<u8> = Vec::new();
        push_decimal_digits(raw, &mut digits);
        proof {
            lemma_decimal_digits(raw as nat);
            assert(digits@ =~= decimal_digits(raw as nat));
        }
        ScaledAmount { digits, scale: 0 }
    }

    /// The digits of the unscaled integer.
    pub closed spec fn spec_digits(&self) -> Seq<u8> {
        self.digits@
    }

    /// The decimal digits of the unscaled integer, the most significant first.
    pub fn digits(&self) -> (digits: &Vec<u8>)
        ensures
            digits@ == self.spec_digits(),
            digits_value(digits@) == self@.unscaled,
            are_digits(digits@),
            digits@.len() >= 1,
    {
        proof {
            use_type_invariant(self);
        }
        &self.digits
    }

    /// How many of the digits are fractional.
    pub fn scale(&self) -> (scale: i64)
        ensures
            scale == self@.scale,
    {
        self.scale
    }

    /// The amount without its fractional digits, where that fits 128 bits.
    pub fn to_u128(&self) -> (r: Option<u128>)
        ensures
            r is Some <==> self@.whole_part() <= u128::MAX,
            r matches Some(v) ==> v == self@.whole_part(),
    {
        proof {
            use_type_invariant(self);
        }
        let len = self.digits.len();
        if self.scale >= 0 {
            let keep: usize = if self.scale as u64 >= len as u64 {
                0
            } else {
                len - self.scale as usize
            };
            proof {
                lemma_digits_value_prefix(self.digits@, keep as int);
                if self.scale >= len {
                    lemma_pow10_div_zero(
                        digits_value(self.digits@),
                        len as nat,
                        self.scale as nat,
                    );
                }
            }
            prefix_as_u128(&self.digits, keep)
        } else {
            let shift = (-(self.scale as i128)) as u64;
            proof {
                assert(self.digits@.take(len as int) =~= self.digits@);
                lemma_pow10_positive(shift as nat);
            }
            let unscaled = match prefix_as_u128(&self.digits, len) {
                Some(unscaled) => unscaled,
                None => {
                    assert(self@.whole_part() >= self@.unscaled) by (nonlinear_arith)
                        requires
                            self@.whole_part() == self@.unscaled * pow10(shift as nat),
                            pow10(shift as nat) >= 1,
                    ;
                    return None;
                },
            };
            times_pow10(unscaled, shift)
        }
    }
}

/// `value * 10^shift`, where that fits 128 bits.
fn times_pow10(value: u128, shift: u64) -> (r: Option<u128>)
    ensures
        r is Some <==> value * pow10(shift as nat) <= u128::MAX,
        r matches Some(v) ==> v == value * pow10(shift as nat),
{
    if value == 0 {
        assert(0 * pow10(shift as nat) == 0) by (nonlinear_arith);
        return Some(0);
    }
    let mut result = value;
    let mut left = shift;
    while left > 0
        invariant
            result >= 1,
            result * pow10(left as nat) == value * pow10(shift as nat),
        decreases left,
    {
        let ghost rest = pow10((left - 1) as nat);
        proof {
            lemma_pow10_positive((left - 1) as nat);
            assert(pow10(left as nat) == 10 * rest);
            assert(result * (10 * rest) == (result * 10) * rest) by (nonlinear_arith);
        }
        result = match result.checked_mul(10) {
            Some(next) => next,
            None => {
                assert((result * 10) * rest >= result * 10) by (nonlinear_arith)
                    requires
                        rest >= 1,
                ;
                return None;
            },
        };
        left = left - 1;
    }
    proof {
        assert(pow10(0) == 1);
        assert(result * 1 == result);
    }
    Some(result)
}

/// The raw amount `raw` at `decimals` decimal places, cut to whole units:
/// `raw / 10^decimals` without fractional digits.
pub fn scale(raw: u128, decimals: u32) -> (amount: ScaledAmount)
    ensures
        amount@ == Decimal::whole(raw as nat / pow10(decimals as nat)),
        amount@.unscaled <= raw,
{
    proof {
        lemma_pow10_positive(decimals as nat);
        assert(raw as nat / pow10(decimals as nat) <= raw as nat) by (nonlinear_arith)
            requires
                pow10(decimals as nat) >= 1,
        ;
    }
    ScaledAmount::from_raw(scaled_units(raw, decimals))
}

/// The quotient that `bigdecimal` computes for two whole numbers, the second
/// of them not zero, as its unscaled integer and its scale. It carries up to a
/// hundred significant digits, the last of them rounded where the division
/// does not end earlier.
pub uninterp spec fn decimal_quotient(numerator: nat, denominator: nat) -> (nat, int);

/// Divides one whole number by another with `bigdecimal`'s `/` on two
/// `BigDecimal` values of scale zero, and hands the quotient back digit by
/// digit. Trusted: the result is what `decimal_quotient` names, it is not
/// negative, and `BigInt::to_radix_be(10)` gives at least one digit and only
/// the digits 0 to 9. The division panics on a zero divisor, which is left out.
#[verifier::external_body]
fn divide_whole(numerator: u128, denominator: u128) -> (quotient: ScaledAmount)
    requires
        denominator != 0,
    ensures
        quotient@.unscaled == decimal_quotient(numerator as nat, denominator as nat).0,
        quotient@.scale == decimal_quotient(numerator as nat, denominator as nat).1,
        quotient.spec_digits().len() >= 1,
        are_digits(quotient.spec_digits()),
{
    let quotient = BigDecimal::from(BigInt::from(numerator)) / BigDecimal::from(
        BigInt::from(denominator),
    );
    let (unscaled, scale) = quotient.into_bigint_and_exponent();
    ScaledAmount { digits: unscaled.to_radix_be(10).1, scale }
}

/// The quotient of two whole numbers as a decimal value.
pub open spec fn quotient_of(numerator: nat, denominator: nat) -> Decimal {
    Decimal {
        unscaled: decimal_quotient(numerator, denominator).0,
        scale: decimal_quotient(numerator, denominator).1,
    }
}

/// The current ratio of a pool: its liquidity divided by its liabilities, both
/// in whole units. `None` where the liabilities are zero.
pub fn current_ratio(pool_liquidity: u128, pool_liabilities: u128) -> (r: Option<ScaledAmount>)
    ensures
        r is Some <==> pool_liabilities != 0,
        r matches Some(ratio) ==> ratio@ == quotient_of(
            pool_liquidity as nat,
            pool_liabilities as nat,
        ),
{
    if pool_liabilities == 0 {
        None
    } else {
        Some(divide_whole(pool_liquidity, pool_liabilities))
    }
}

} // verus!
