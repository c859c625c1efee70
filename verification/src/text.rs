//! Numbers as text: plain decimal numerals, whole numbers with their
//! thousands grouped, and amounts cut to two decimal places.

use crate::amount::ScaledAmount;
use crate::digits::{
    are_digits, decimal_digits, digits_value, lemma_decimal_digits_of_value,
    lemma_digits_value_leading_zeros, lemma_digits_value_prefix, lemma_digits_value_push_zero,
    lemma_pow10_div_zero, pow10,
};
use num_format::{Locale, ToFormattedString};
use vstd::prelude::*;

verus! {

/// The character of one decimal digit.
pub open spec fn digit_char(digit: u8) -> char {
    match digit {
        0 => '0',
        1 => '1',
        2 => '2',
        3 => '3',
        4 => '4',
        5 => '5',
        6 => '6',
        7 => '7',
        8 => '8',
        _ => '9',
    }
}

/// The characters of a sequence of decimal digits.
pub open spec fn digits_text(digits: Seq<u8>) -> Seq<char> {
    digits.map_values(|digit: u8| digit_char(digit))
}

/// The decimal numeral of `n`, without leading zeros.
pub open spec fn decimal_text(n: nat) -> Seq<char> {
    digits_text(decimal_digits(n))
}

/// The three digits of a number below a thousand, zeros in front included.
pub open spec fn three_digits_text(n: nat) -> Seq<char> {
    seq![
        digit_char((n / 100 % 10) as u8),
        digit_char((n / 10 % 10) as u8),
        digit_char((n % 10) as u8),
    ]
}

/// The decimal numeral of `n` with a comma before every group of three digits
/// counted from the right: `1,234,567`.
pub open spec fn grouped_text(n: nat) -> Seq<char>
    decreases n,
{
    if n < 1000 {
        decimal_text(n)
    } else {
        grouped_text(n / 1000) + seq![','] + three_digits_text(n % 1000)
    }
}

/// A number of hundredths as a numeral with exactly two fractional digits:
/// `200` is `2.00`, `5` is `0.05`.
pub open spec fn two_places_text(hundredths: nat) -> Seq<char> {
    decimal_text(hundredths / 100) + seq![
        '.',
        digit_char((hundredths / 10 % 10) as u8),
        digit_char((hundredths % 10) as u8),
    ]
}

/// Formats a whole number with `num_format`'s `to_formatted_string` for the
/// locale `en`. Trusted: that locale separates with a comma and groups in the
/// standard way, so the result is the decimal numeral of `n` with its digits in
/// groups of three from the right and a comma between the groups.
#[verifier::external_body]
fn format_en(n: u128) -> (text: String)
    ensures
        text@ == grouped_text(n as nat),
{
    n.to_formatted_string(&Locale::en)
}

/// A whole amount with its thousands grouped. The amount is printed without
/// its fractional digits.
pub fn prettify(num: &ScaledAmount) -> (text: String)
    requires
        num@.whole_part() <= u128::MAX,
    ensures
        text@ == grouped_text(num@.whole_part()),
{
    format_en(num.to_u128().unwrap())
}

/// `prettify` where the amount can be printed, and nothing where it cannot.
pub fn try_prettify(num: &ScaledAmount) -> (text: Option<String>)
    ensures
        text is Some <==> num@.whole_part() <= u128::MAX,
        text matches Some(text) ==> text@ == grouped_text(num@.whole_part()),
{
    match num.to_u128() {
        Some(whole) => Some(format_en(whole)),
        None => None,
    }
}

/// Appends the character of one digit.
fn push_digit(text: &mut String, digit: u8)
    requires
        digit <= 9,
    ensures
        final(text)@ == old(text)@.push(digit_char(digit)),
{
    proof {
        reveal_strlit("0");
        reveal_strlit("1");
        reveal_strlit("2");
        reveal_strlit("3");
        reveal_strlit("4");
        reveal_strlit("5");
        reveal_strlit("6");
        reveal_strlit("7");
        reveal_strlit("8");
        reveal_strlit("9");
    }
    let piece = match digit {
        0 => "0",
        1 => "1",
        2 => "2",
        3 => "3",
        4 => "4",
        5 => "5",
        6 => "6",
        7 => "7",
        8 => "8",
        _ => "9",
    };
    assert(piece@ =~= seq![digit_char(digit)]);
    text.append(piece);
    assert(text@ =~= old(text)@.push(digit_char(digit)));
}

/// Appends the decimal numeral of `n`.
pub fn push_decimal(text: &mut String, n: u128)
    ensures
        final(text)@ == old(text)@ + decimal_text(n as nat),
    decreases n,
{
    if n >= 10 {
        push_decimal(text, n / 10);
    }
    push_digit(text, (n % 10) as u8);
    assert(final(text)@ =~= old(text)@ + decimal_text(n as nat));
}

/// Appends the characters of the digits from `from` up to `to`.
fn push_digits(text: &mut String, digits: &Vec<u8>, from: usize, to: usize)
    requires
        from <= to <= digits.len(),
        are_digits(digits@),
    ensures
        final(text)@ == old(text)@ + digits_text(digits@.subrange(from as int, to as int)),
{
    let ghost before = text@;
    let mut i = from;
    assert(text@ =~= before + digits_text(digits@.subrange(from as int, i as int)));
    while i < to
        invariant
            from <= i <= to <= digits.len(),
            are_digits(digits@),
            text@ == before + digits_text(digits@.subrange(from as int, i as int)),
        decreases to - i,
    {
        push_digit(text, digits[i]);
        assert(digits@.subrange(from as int, i + 1) =~= digits@.subrange(
            from as int,
            i as int,
        ).push(digits@[i as int]));
        assert(text@ =~= before + digits_text(digits@.subrange(from as int, i + 1)));
        i = i + 1;
    }
}

/// The digits of the amount's hundredths, with zeros in front.
fn hundredths_digits(amount: &ScaledAmount) -> (out: Vec<u8>)
    ensures
        are_digits(out@),
        out@.len() >= 3,
        digits_value(out@) == amount@.hundredths(),
{
    let digits = amount.digits();
    let scale = amount.scale();
    let len = digits.len();
    let mut out: Vec<u8> = Vec::new();
    out.push(0);
    out.push(0);
    out.push(0);
    let ghost lead = out@;
    let keep: usize = if scale >= 2 && (scale - 2) as u64 >= len as u64 {
        0
    } else if scale >= 2 {
        len - (scale - 2) as usize
    } else {
        len
    };
    let mut i: usize = 0;
    assert(out@ =~= lead + digits@.take(0));
    while i < keep
        invariant
            i <= keep <= digits.len(),
            are_digits(digits@),
            lead.len() == 3,
            out@ == lead + digits@.take(i as int),
        decreases keep - i,
    {
        out.push(digits[i]);
        assert(out@ =~= lead + digits@.take(i + 1));
        i = i + 1;
    }
    proof {
        assert((lead + digits@.take(keep as int)).skip(3) =~= digits@.take(keep as int));
        lemma_digits_value_leading_zeros(out@, 3);
        lemma_digits_value_prefix(digits@, keep as int);
        if scale >= 2 && scale - 2 >= len {
            lemma_pow10_div_zero(digits_value(digits@), len as nat, (scale - 2) as nat);
        }
        if scale < 2 {
            assert(digits@.take(len as int) =~= digits@);
            assert(pow10(0) == 1);
            assert(digits_value(digits@) * 1 == digits_value(digits@));
        }
    }
    if scale < 2 {
        let more = (2 - scale as i128) as u64;
        let mut added: u64 = 0;
        while added < more
            invariant
                added <= more,
                are_digits(out@),
                out@.len() >= 3,
                digits_value(out@) == digits_value(digits@) * pow10(added as nat),
            decreases more - added,
        {
            proof {
                lemma_digits_value_push_zero(out@);
                assert(pow10((added + 1) as nat) == 10 * pow10(added as nat));
                assert(10 * (digits_value(digits@) * pow10(added as nat)) == digits_value(digits@)
                    * (10 * pow10(added as nat))) by (nonlinear_arith);
            }
            out.push(0);
            added = added + 1;
        }
    }
    out
}

/// The amount cut to two decimal places, as a numeral with exactly two
/// fractional digits. What is cut off is dropped, not rounded.
pub fn two_places(amount: &ScaledAmount) -> (text: String)
    ensures
        text@ == two_places_text(amount@.hundredths()),
{
    let digits = hundredths_digits(amount);
    let len = digits.len();
    let whole = len - 2;
    let mut first: usize = 0;
    while first + 1 < whole && digits[first] == 0
        invariant
            first < whole == len - 2,
            len == digits.len(),
            forall|k: int| 0 <= k < first ==> digits@[k] == 0,
        decreases whole - first,
    {
        first = first + 1;
    }
    let mut text = String::new();
    push_digits(&mut text, &digits, first, whole);
    text.append(".");
    push_digits(&mut text, &digits, whole, len);
    proof {
        reveal_strlit(".");
        let value = digits_value(digits@);
        let front = digits@.take(whole as int);
        let shown = digits@.subrange(first as int, whole as int);
        lemma_digits_value_prefix(digits@, whole as int);
        assert(pow10(2) == 100) by {
            reveal_with_fuel(pow10, 3);
        }
        lemma_digits_value_leading_zeros(front, first as int);
        assert(front.skip(first as int) =~= shown);
        lemma_decimal_digits_of_value(shown);
        assert(decimal_digits(value / 100) == shown);
        let tail = digits@.subrange(whole as int, len as int);
        assert(digits@.drop_last().drop_last() =~= front);
        assert(digits_value(digits@) == 10 * digits_value(digits@.drop_last())
            + digits@.last() as nat);
        assert(digits_value(digits@.drop_last()) == 10 * digits_value(front)
            + digits@.drop_last().last() as nat);
        assert(digits@[len - 1] <= 9 && digits@[len - 2] <= 9);
        assert(value % 10 == digits@[len - 1]);
        assert(value / 10 % 10 == digits@[len - 2]);
        assert(digits_text(tail) =~= seq![
            digit_char((value / 10 % 10) as u8),
            digit_char((value % 10) as u8),
        ]);
        assert(text@ =~= two_places_text(value));
    }
    text
}

} // verus!
