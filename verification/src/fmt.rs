//! Exact decimal rendering of wad fixed-point values, for the
//! human-readable opportunity summaries. Every function's output is
//! characterised character-for-character by a spec-level digit sequence.

use vstd::prelude::*;
use crate::models::WAD;

verus! {

/// The ASCII digit character for a value below ten.
pub open spec fn digit_char(d: nat) -> char {
    if d == 0 {
        '0'
    } else if d == 1 {
        '1'
    } else if d == 2 {
        '2'
    } else if d == 3 {
        '3'
    } else if d == 4 {
        '4'
    } else if d == 5 {
        '5'
    } else if d == 6 {
        '6'
    } else if d == 7 {
        '7'
    } else if d == 8 {
        '8'
    } else {
        '9'
    }
}

/// The decimal digits of `n`, most significant first, with no leading
/// zeroes (a single `'0'` for zero).
pub open spec fn dec_digits(n: nat) -> Seq<char>
    decreases n,
{
    if n < 10 {
        seq![digit_char(n)]
    } else {
        dec_digits(n / 10).push(digit_char(n % 10))
    }
}

/// The last `width` decimal digits of `n`, zero-padded.
pub open spec fn dec_digits_pad(n: nat, width: nat) -> Seq<char>
    decreases width,
{
    if width == 0 {
        Seq::<char>::empty()
    } else {
        dec_digits_pad(n / 10, (width - 1) as nat).push(digit_char(n % 10))
    }
}

/// A wad value rendered with `frac` fraction digits (truncated): the
/// integer part, a point, and the first `frac` digits of the fraction.
pub open spec fn wad_digits(n: nat, frac: nat) -> Seq<char> {
    dec_digits(n / (WAD as nat)) + seq!['.'] + dec_digits_pad(
        (n % (WAD as nat)) / crate::price::pow10((18 - frac) as nat),
        frac,
    )
}

/// One digit as a string slice.
fn digit_str(d: u128) -> (r: &'static str)
    requires
        d < 10,
    ensures
        r@ == seq![digit_char(d as nat)],
{
    proof {
        reveal_strlit("0");
        reveal_strlit("1");
        reveal_strlit("2");
        reveal_strlit("3");
        reveal_strlit("4");
        reveal_strlit("5");
        reveal_strlit("6");
        reveal_strlit("7");
        reveal_strlit("8");
        reveal_strlit("9");
    }
    if d == 0 {
        "0"
    } else if d == 1 {
        "1"
    } else if d == 2 {
        "2"
    } else if d == 3 {
        "3"
    } else if d == 4 {
        "4"
    } else if d == 5 {
        "5"
    } else if d == 6 {
        "6"
    } else if d == 7 {
        "7"
    } else if d == 8 {
        "8"
    } else {
        "9"
    }
}

/// Append the decimal digits of `n` to `s`.
pub fn push_decimal(s: &mut String, n: u128)
    ensures
        final(s)@ == old(s)@ + dec_digits(n as nat),
    decreases n,
{
    if n < 10 {
        s.append(digit_str(n));
    } else {
        push_decimal(s, n / 10);
        s.append(digit_str(n % 10));
    }
}

/// Append exactly `width` zero-padded low decimal digits of `n` to `s`.
pub fn push_decimal_pad(s: &mut String, n: u128, width: u32)
    ensures
        final(s)@ == old(s)@ + dec_digits_pad(n as nat, width as nat),
    decreases width,
{
    if width > 0 {
        push_decimal_pad(s, n / 10, width - 1);
        s.append(digit_str(n % 10));
    }
}

/// Append a wad value with `frac` truncated fraction digits to `s`.
pub fn push_wad(s: &mut String, n: u128, frac: u32)
    requires
        frac <= 18,
    ensures
        final(s)@ == old(s)@ + wad_digits(n as nat, frac as nat),
{
    push_decimal(s, n / WAD);
    proof {
        reveal_strlit(".");
    }
    s.append(".");
    let scale: u128 = crate::price::pow10_u128(18 - frac);
    proof {
        vstd::arithmetic::div_mod::lemma_mod_bound(n as int, WAD as int);
    }
    push_decimal_pad(s, (n % WAD) / scale, frac);
}

} // verus!
