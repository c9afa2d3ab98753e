//! Fixed-point amounts: one major unit is 10 000 minor units, and an amount is
//! rendered with exactly four decimal digits.

use vstd::prelude::*;
use vstd::string::*;

verus! {

/// Minor units in one major unit.
pub const MINOR_PER_MAJOR: u128 = 10_000;

/// The character of a decimal digit.
pub open spec fn digit_char(d: nat) -> char {
    if d == 0 {
        '0'
    } else if d == 1 {
        '1'
    } else if d == 2 {
        '2'
    } else if d == 3 {
        '3'
    } else if d == 4 {
        '4'
    } else if d == 5 {
        '5'
    } else if d == 6 {
        '6'
    } else if d == 7 {
        '7'
    } else if d == 8 {
        '8'
    } else {
        '9'
    }
}

/// The decimal digits of `n`, most significant first, without leading zeros.
pub open spec fn decimal(n: nat) -> Seq<char>
    decreases n,
{
    if n < 10 {
        seq![digit_char(n)]
    } else {
        decimal(n / 10).push(digit_char(n % 10))
    }
}

/// The four digits of a fractional part `n < 10 000`.
pub open spec fn fraction(n: nat) -> Seq<char> {
    seq![
        digit_char(n / 1000 % 10),
        digit_char(n / 100 % 10),
        digit_char(n / 10 % 10),
        digit_char(n % 10),
    ]
}

/// The text of a magnitude in minor units: whole part, a point, four digits.
pub open spec fn unsigned_text(m: nat) -> Seq<char> {
    decimal(m / 10_000) + seq!['.'] + fraction(m % 10_000)
}

/// The text of an amount in minor units, in major units with four decimals;
/// a negative amount has a leading minus sign.
pub open spec fn major_text(v: int) -> Seq<char> {
    if v < 0 {
        seq!['-'] + unsigned_text((-v) as nat)
    } else {
        unsigned_text(v as nat)
    }
}

fn digit_str(d: u128) -> (s: &'static str)
    requires
        d < 10,
    ensures
        s@ == seq![digit_char(d as nat)],
{
    proof {
        reveal_strlit("0");
        reveal_strlit("1");
        reveal_strlit("2");
        reveal_strlit("3");
        reveal_strlit("4");
        reveal_strlit("5");
        reveal_strlit("6");
        reveal_strlit("7");
        reveal_strlit("8");
        reveal_strlit("9");
    }
    let s = if d == 0 {
        "0"
    } else if d == 1 {
        "1"
    } else if d == 2 {
        "2"
    } else if d == 3 {
        "3"
    } else if d == 4 {
        "4"
    } else if d == 5 {
        "5"
    } else if d == 6 {
        "6"
    } else if d == 7 {
        "7"
    } else if d == 8 {
        "8"
    } else {
        "9"
    };
    assert(s@ =~= seq![digit_char(d as nat)]);
    s
}

fn push_decimal(s: &mut String, n: u128)
    ensures
        final(s)@ == old(s)@ + decimal(n as nat),
    decreases n,
{
    if n >= 10 {
        push_decimal(s, n / 10);
    }
    s.append(digit_str(n % 10));
    assert(final(s)@ =~= old(s)@ + decimal(n as nat));
}

fn push_fraction(s: &mut String, n: u128)
    requires
        n < 10_000,
    ensures
        final(s)@ == old(s)@ + fraction(n as nat),
{
    s.append(digit_str(n / 1000 % 10));
    s.append(digit_str(n / 100 % 10));
    s.append(digit_str(n / 10 % 10));
    s.append(digit_str(n % 10));
    assert(final(s)@ =~= old(s)@ + fraction(n as nat));
}

/// Renders a sign and a magnitude in minor units.
fn render(negative: bool, magnitude: u128) -> (s: String)
    ensures
        s@ == if negative {
            seq!['-'] + unsigned_text(magnitude as nat)
        } else {
            unsigned_text(magnitude as nat)
        },
{
    let mut s = String::new();
    if negative {
        proof {
            reveal_strlit("-");
        }
        s.append("-");
    }
    let ghost head = s@;
    push_decimal(&mut s, magnitude / MINOR_PER_MAJOR);
    proof {
        reveal_strlit(".");
    }
    s.append(".");
    push_fraction(&mut s, magnitude % MINOR_PER_MAJOR);
    assert(s@ =~= head + unsigned_text(magnitude as nat));
    assert(negative ==> head =~= seq!['-']);
    assert(!negative ==> head =~= Seq::<char>::empty());
    s
}

/// Renders an amount that may exceed the range of one balance, such as the sum
/// of two balances.
pub fn to_major_wide(amount: i128) -> (s: String)
    ensures
        s@ == major_text(amount as int),
{
    if amount < 0 {
        let magnitude: u128 = (-(amount + 1)) as u128 + 1;
        render(true, magnitude)
    } else {
        render(false, amount as u128)
    }
}

/// Converts an amount in minor units to its text in major units, with four
/// decimal digits.
pub fn to_major(amount: i64) -> (s: String)
    ensures
        s@ == major_text(amount as int),
{
    to_major_wide(amount as i128)
}

} // verus!
