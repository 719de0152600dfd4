//! Decimal rendering of quantities and monetary amounts.
//!
//! An amount of money is a count of cents. `format_cents` renders it with a
//! dollar part and exactly two fractional digits, the way `spec_cents`
//! describes; `format_u128` renders a plain count.

use vstd::prelude::*;

verus! {

/// The decimal digit character for `d` (meaningful for `d < 10`).
pub open spec fn spec_digit(d: nat) -> char {
    if d == 0 {
        '0'
    } else if d == 1 {
        '1'
    } else if d == 2 {
        '2'
    } else if d == 3 {
        '3'
    } else if d == 4 {
        '4'
    } else if d == 5 {
        '5'
    } else if d == 6 {
        '6'
    } else if d == 7 {
        '7'
    } else if d == 8 {
        '8'
    } else {
        '9'
    }
}

/// The usual decimal rendering of `n`: most significant digit first,
/// no leading zeros except for `n == 0` itself.
pub open spec fn spec_decimal(n: nat) -> Seq<char>
    decreases n,
{
    if n < 10 {
        seq![spec_digit(n)]
    } else {
        spec_decimal(n / 10) + seq![spec_digit(n % 10)]
    }
}

/// A count of cents rendered as a decimal amount with exactly two
/// fractional digits: the dollar part, a point, then tens and ones of cents.
pub open spec fn spec_cents(c: nat) -> Seq<char> {
    spec_decimal(c / 100) + seq!['.', spec_digit((c % 100) / 10), spec_digit(c % 10)]
}

/// Whether `c` is one of the ten decimal digit characters.
pub open spec fn is_decimal_digit(c: char) -> bool {
    c == '0' || c == '1' || c == '2' || c == '3' || c == '4' || c == '5' || c == '6' || c == '7'
        || c == '8' || c == '9'
}

/// Every character of a decimal rendering is a digit, and there is at
/// least one.
pub proof fn lemma_decimal_all_digits(n: nat)
    ensures
        spec_decimal(n).len() >= 1,
        forall|k: int| 0 <= k < spec_decimal(n).len() ==> is_decimal_digit(spec_decimal(n)[k]),
    decreases n,
{
    if n < 10 {
    } else {
        lemma_decimal_all_digits(n / 10);
        assert forall|k: int| 0 <= k < spec_decimal(n).len() implies is_decimal_digit(
            spec_decimal(n)[k],
        ) by {
            if k < spec_decimal(n / 10).len() {
                assert(spec_decimal(n)[k] == spec_decimal(n / 10)[k]);
            } else {
                assert(spec_decimal(n)[k] == spec_digit(n % 10));
            }
        }
    }
}

/// Law: every rendered amount has exactly two fractional digits — the
/// point stands exactly three characters from the end, the two characters
/// after it are digits, and so is every character of the dollar part
/// before it.
pub proof fn lemma_cents_two_decimals(c: nat)
    ensures
        spec_cents(c).len() >= 4,
        spec_cents(c)[spec_cents(c).len() - 3] == '.',
        is_decimal_digit(spec_cents(c)[spec_cents(c).len() - 2]),
        is_decimal_digit(spec_cents(c)[spec_cents(c).len() - 1]),
        forall|k: int| 0 <= k < spec_cents(c).len() - 3 ==> is_decimal_digit(spec_cents(c)[k]),
{
    lemma_decimal_all_digits(c / 100);
    let d = spec_decimal(c / 100);
    let s = spec_cents(c);
    assert(s.len() == d.len() + 3);
    assert(s[d.len() as int] == '.');
    assert(s[d.len() as int + 1] == spec_digit((c % 100) / 10));
    assert(s[d.len() as int + 2] == spec_digit(c % 10));
    assert forall|k: int| 0 <= k < s.len() - 3 implies is_decimal_digit(s[k]) by {
        assert(s[k] == d[k]);
    }
}

/// A one-character string slice holding the decimal digit `d`.
fn digit_str(d: u8) -> (s: &'static str)
    requires
        d < 10,
    ensures
        s@ == seq![spec_digit(d as nat)],
{
    proof {
        reveal_strlit("0");
        reveal_strlit("1");
        reveal_strlit("2");
        reveal_strlit("3");
        reveal_strlit("4");
        reveal_strlit("5");
        reveal_strlit("6");
        reveal_strlit("7");
        reveal_strlit("8");
        reveal_strlit("9");
    }
    if d == 0 {
        "0"
    } else if d == 1 {
        "1"
    } else if d == 2 {
        "2"
    } else if d == 3 {
        "3"
    } else if d == 4 {
        "4"
    } else if d == 5 {
        "5"
    } else if d == 6 {
        "6"
    } else if d == 7 {
        "7"
    } else if d == 8 {
        "8"
    } else {
        "9"
    }
}

/// Renders `n` in decimal, matching `spec_decimal`.
pub fn format_u128(n: u128) -> (s: String)
    ensures
        s@ == spec_decimal(n as nat),
    decreases n,
{
    if n < 10 {
        String::from_str(digit_str(n as u8))
    } else {
        let mut s = format_u128(n / 10);
        let d = (n % 10) as u8;
        s.append(digit_str(d));
        s
    }
}

/// Renders `n` in decimal, matching `spec_decimal`.
pub fn format_u64(n: u64) -> (s: String)
    ensures
        s@ == spec_decimal(n as nat),
{
    format_u128(n as u128)
}

/// Renders a count of cents with exactly two fractional digits,
/// matching `spec_cents`.
pub fn format_cents(c: u128) -> (s: String)
    ensures
        s@ == spec_cents(c as nat),
{
    proof {
        reveal_strlit(".");
    }
    let mut s = format_u128(c / 100);
    s.append(".");
    let tens = ((c % 100) / 10) as u8;
    let ones = (c % 10) as u8;
    s.append(digit_str(tens));
    s.append(digit_str(ones));
    proof {
        assert(s@ =~= spec_cents(c as nat));
    }
    s
}

} // verus!
