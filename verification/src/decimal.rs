//! Decimal digits and the numbers they spell.

use vstd::prelude::*;

verus! {

/// Whether `c` is one of the ten ASCII digits.
pub open spec fn is_digit(c: char) -> bool {
    '0' <= c && c <= '9'
}

/// The number that the digit `c` stands for; zero for any other character.
pub open spec fn digit_value(c: char) -> nat {
    if is_digit(c) {
        (c as u32 - '0' as u32) as nat
    } else {
        0
    }
}

/// Whether every character of `s` is a digit.
pub open spec fn all_digits(s: Seq<char>) -> bool {
    forall|i: int| 0 <= i < s.len() ==> is_digit(#[trigger] s[i])
}

/// The number that `digits` spells in base ten, most significant digit
/// first. The empty sequence spells zero.
pub open spec fn decimal_value(digits: Seq<char>) -> nat
    decreases digits.len(),
{
    if digits.len() == 0 {
        0
    } else {
        10 * decimal_value(digits.drop_last()) + digit_value(digits.last())
    }
}

/// One more digit at the end never makes the number smaller.
pub proof fn lemma_decimal_value_push(digits: Seq<char>, c: char)
    ensures
        decimal_value(digits.push(c)) == 10 * decimal_value(digits) + digit_value(c),
        decimal_value(digits.push(c)) >= decimal_value(digits),
{
    assert(digits.push(c).drop_last() =~= digits);
}

/// The value of the digit `c`, or `None` where `c` is no digit.
pub fn digit_of(c: char) -> (d: Option<u64>)
    ensures
        d is Some == is_digit(c),
        d matches Some(v) ==> v == digit_value(c) && v <= 9,
{
    if '0' <= c && c <= '9' {
        Some((c as u32 - '0' as u32) as u64)
    } else {
        None
    }
}

/// Appends the digit `d` to the number `value`, if the result fits.
pub fn push_digit(value: u64, d: u64) -> (r: Option<u64>)
    requires
        d <= 9,
    ensures
        r is Some == (10 * value + d <= u64::MAX),
        r matches Some(v) ==> v == 10 * value + d,
{
    match value.checked_mul(10) {
        Some(shifted) => shifted.checked_add(d),
        None => None,
    }
}

} // verus!
