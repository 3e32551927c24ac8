//! Decimal digit sequences and the numbers they denote.

use vstd::prelude::*;

verus! {

/// `10` to the power `n`.
pub open spec fn pow10(n: nat) -> nat
    decreases n,
{
    if n == 0 {
        1
    } else {
        10 * pow10((n - 1) as nat)
    }
}

/// The number that `digits` denotes, most significant digit first.
/// The empty sequence denotes zero.
pub open spec fn digits_value(digits: Seq<u8>) -> nat
    decreases digits.len(),
{
    if digits.len() == 0 {
        0
    } else {
        10 * digits_value(digits.drop_last()) + digits.last() as nat
    }
}

/// Every element of `digits` is a decimal digit.
pub open spec fn all_decimal(digits: Seq<u8>) -> bool {
    forall|i: int| 0 <= i < digits.len() ==> #[trigger] digits[i] <= 9
}

/// Every element of `digits` is zero.
pub open spec fn all_zero(digits: Seq<u8>) -> bool {
    forall|i: int| 0 <= i < digits.len() ==> #[trigger] digits[i] == 0
}

/// `n` zeros.
pub open spec fn zeros(n: nat) -> Seq<u8> {
    Seq::new(n, |i: int| 0u8)
}

/// The last `n` elements of `digits`, or all of them where there are fewer.
pub open spec fn low(digits: Seq<u8>, n: nat) -> Seq<u8> {
    if n >= digits.len() {
        digits
    } else {
        digits.subrange(digits.len() - n, digits.len() as int)
    }
}

/// The digits of a number below one thousand, without leading zeros.
pub open spec fn group_digits(value: nat) -> Seq<u8>
    recommends
        value < 1000,
{
    if value < 10 {
        seq![value as u8]
    } else if value < 100 {
        seq![(value / 10) as u8, (value % 10) as u8]
    } else {
        seq![(value / 100) as u8, (value / 10 % 10) as u8, (value % 10) as u8]
    }
}

/// The character that stands for a decimal digit.
pub open spec fn digit_char(digit: u8) -> char
    recommends
        digit <= 9,
{
    (48 + digit) as char
}

/// The text of a digit sequence: one character for each digit.
pub open spec fn digits_text(digits: Seq<u8>) -> Seq<char> {
    Seq::new(digits.len(), |i: int| digit_char(digits[i]))
}

/// A decimal number: `mantissa` divided by ten to the power `places`.
#[derive(Debug, Clone, Copy, PartialEq, Eq, Structural)]
pub struct Value {
    /// The digits of the number, read as an integer.
    pub mantissa: u64,
    /// How many of those digits stand behind the decimal separator.
    pub places: usize,
}

impl Value {
    /// The number `whole + tail / 10^places`, where its digits fit.
    pub open spec fn of(whole: nat, tail: nat, places: nat) -> Option<Value> {
        let mantissa = whole * pow10(places) + tail;
        if mantissa <= u64::MAX {
            Some(Value { mantissa: mantissa as u64, places: places as usize })
        } else {
            None
        }
    }

    /// The number `whole + tail / 10^places`: `whole` before the decimal
    /// separator and the `places` digits of `tail` behind it. There is none
    /// if its digits, read as one integer, do not fit.
    pub fn compose(whole: u64, tail: u64, places: usize) -> (value: Option<Value>)
        ensures
            value == Value::of(whole as nat, tail as nat, places as nat),
    {
        let mut scaled: u64 = whole;
        let mut i: usize = 0;
        assert(whole * pow10(0) == whole) by (nonlinear_arith)
            requires
                pow10(0) == 1,
        ;
        while i < places
            invariant
                i <= places,
                scaled == whole * pow10(i as nat),
            decreases places - i,
        {
            if scaled > u64::MAX / 10 {
                proof {
                    lemma_pow10_grows(i as nat + 1, places as nat);
                    assert(whole * pow10(i as nat + 1) == 10 * (whole * pow10(i as nat)))
                        by (nonlinear_arith)
                        requires
                            pow10(i as nat + 1) == 10 * pow10(i as nat),
                    ;
                    assert(whole * pow10(i as nat + 1) <= whole * pow10(places as nat))
                        by (nonlinear_arith)
                        requires
                            pow10(i as nat + 1) <= pow10(places as nat),
                    ;
                }
                return None;
            }
            proof {
                assert(whole * pow10(i as nat + 1) == 10 * (whole * pow10(i as nat)))
                    by (nonlinear_arith)
                    requires
                        pow10(i as nat + 1) == 10 * pow10(i as nat),
                ;
            }
            scaled = scaled * 10;
            i += 1;
        }
        if tail > u64::MAX - scaled {
            None
        } else {
            Some(Value { mantissa: scaled + tail, places })
        }
    }
}

/// Powers of ten grow with the exponent.
pub proof fn lemma_pow10_grows(m: nat, n: nat)
    requires
        m <= n,
    ensures
        1 <= pow10(m) <= pow10(n),
    decreases n,
{
    if n == 0 {
    } else if m == n {
        lemma_pow10_grows(0, (n - 1) as nat);
    } else {
        lemma_pow10_grows(m, (n - 1) as nat);
    }
}

/// A digit sequence denotes at least what any of its beginnings denotes.
pub proof fn lemma_value_of_prefix(digits: Seq<u8>, n: int)
    requires
        0 <= n <= digits.len(),
    ensures
        digits_value(digits.take(n)) <= digits_value(digits),
    decreases digits.len(),
{
    if n == digits.len() {
        assert(digits.take(n) =~= digits);
    } else {
        lemma_value_of_prefix(digits.drop_last(), n);
        assert(digits.drop_last().take(n) =~= digits.take(n));
    }
}

/// Digits written behind others denote the others' number, moved up by
/// their count, plus their own.
pub proof fn lemma_value_of_concat(high: Seq<u8>, low: Seq<u8>)
    ensures
        digits_value(high + low) == digits_value(high) * pow10(low.len()) + digits_value(low),
    decreases low.len(),
{
    if low.len() == 0 {
        assert(high + low =~= high);
        assert(digits_value(high) * 1 == digits_value(high)) by (nonlinear_arith);
    } else {
        let all = high + low;
        assert(all.drop_last() =~= high + low.drop_last());
        assert(all.last() == low.last());
        lemma_value_of_concat(high, low.drop_last());
        let h = digits_value(high);
        let p = pow10(low.drop_last().len());
        let l = digits_value(low.drop_last());
        assert(10 * (h * p + l) == h * (10 * p) + 10 * l) by (nonlinear_arith);
    }
}

/// Zeros denote zero.
pub proof fn lemma_value_of_zeros(digits: Seq<u8>)
    requires
        all_zero(digits),
    ensures
        digits_value(digits) == 0,
    decreases digits.len(),
{
    if digits.len() > 0 {
        assert(digits.last() == 0);
        lemma_value_of_zeros(digits.drop_last());
    }
}

/// The digits of a number below one thousand denote it.
pub proof fn lemma_value_of_group(value: nat)
    requires
        value < 1000,
    ensures
        digits_value(group_digits(value)) == value,
        1 <= group_digits(value).len() <= 3,
        all_decimal(group_digits(value)),
{
    let g = group_digits(value);
    reveal_with_fuel(digits_value, 4);
    if value < 10 {
        assert(g.drop_last().len() == 0);
    } else if value < 100 {
        assert(g.drop_last() =~= seq![(value / 10) as u8]);
        assert(g.drop_last().drop_last().len() == 0);
    } else {
        assert(g.drop_last() =~= seq![(value / 100) as u8, (value / 10 % 10) as u8]);
        assert(g.drop_last().drop_last() =~= seq![(value / 100) as u8]);
        assert(g.drop_last().drop_last().drop_last().len() == 0);
    }
}

} // verus!
