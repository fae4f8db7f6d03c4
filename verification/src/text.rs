//! Text helpers with exact contracts over sequences of characters.

use crate::units::{
    cents_of, nearest, pico_magnitude, round_nearest, round_to_cents, Ratio, Usd, RATIO_PERCENT,
};
use vstd::prelude::*;
use vstd::string::*;

verus! {

/// The characters of a text.
pub fn chars_of(s: &str) -> (v: Vec<char>)
    ensures
        v@ == s@,
{
    let mut v: Vec<char> = Vec::new();
    for c in it: s.chars()
        invariant
            v@ == s@.take(it.index() as int),
            it.seq() == s@,
    {
        v.push(c);
    }
    v
}

/// Whether two texts are the same.
pub fn same_text(a: &str, b: &str) -> (r: bool)
    ensures
        r == (a@ == b@),
{
    a.to_owned() == b.to_owned()
}

/// The decimal digit of `d`, for `d` below ten.
pub open spec fn digit(d: nat) -> char {
    (48 + d) as char
}

/// A number in decimal, without leading zeros.
pub open spec fn decimal(n: nat) -> Seq<char>
    decreases n,
{
    if n < 10 {
        seq![digit(n)]
    } else {
        decimal(n / 10).push(digit(n % 10))
    }
}

fn digit_text(d: u8) -> (s: &'static str)
    requires
        d < 10,
    ensures
        s@ == seq![digit(d as nat)],
{
    proof {
        reveal_strlit("0");
        reveal_strlit("1");
        reveal_strlit("2");
        reveal_strlit("3");
        reveal_strlit("4");
        reveal_strlit("5");
        reveal_strlit("6");
        reveal_strlit("7");
        reveal_strlit("8");
        reveal_strlit("9");
    }
    match d {
        0 => "0",
        1 => "1",
        2 => "2",
        3 => "3",
        4 => "4",
        5 => "5",
        6 => "6",
        7 => "7",
        8 => "8",
        _ => "9",
    }
}

/// Appends a number in decimal.
pub fn push_decimal(out: &mut String, n: u128)
    ensures
        final(out)@ == old(out)@ + decimal(n as nat),
    decreases n,
{
    if n >= 10 {
        push_decimal(out, n / 10);
    }
    out.append(digit_text((n % 10) as u8));
}

/// Hundredths written with two decimals: `1234` is `12.34`.
pub open spec fn two_decimals(hundredths: nat) -> Seq<char> {
    decimal(hundredths / 100) + "."@ + seq![
        digit(hundredths / 10 % 10),
        digit(hundredths % 10),
    ]
}

fn push_two_decimals(out: &mut String, hundredths: u128)
    ensures
        final(out)@ == old(out)@ + two_decimals(hundredths as nat),
{
    push_decimal(out, hundredths / 100);
    out.append(".");
    out.append(digit_text((hundredths / 10 % 10) as u8));
    out.append(digit_text((hundredths % 10) as u8));
}

/// A fraction with two decimals.
pub open spec fn ratio_text(r: Ratio) -> Seq<char> {
    two_decimals(nearest(r.units as nat, RATIO_PERCENT as nat))
}

/// Appends a fraction with two decimals.
pub fn push_ratio(out: &mut String, r: Ratio)
    ensures
        final(out)@ == old(out)@ + ratio_text(r),
{
    push_two_decimals(out, round_nearest(r.units as u128, RATIO_PERCENT as u128));
}

/// An amount of dollars with two decimals, as the binary floating-point number
/// nearest to it is written, led by a minus sign below zero.
pub open spec fn usd_text(amount: Usd) -> Seq<char> {
    (if amount.pico < 0 {
        "-"@
    } else {
        Seq::<char>::empty()
    }) + two_decimals(cents_of(crate::units::magnitude(amount.pico as int)))
}

/// Appends an amount of dollars with two decimals.
pub fn push_usd(out: &mut String, amount: Usd)
    ensures
        final(out)@ == old(out)@ + usd_text(amount),
{
    if amount.pico < 0 {
        out.append("-");
    }
    push_two_decimals(out, round_to_cents(pico_magnitude(amount)));
}

/// A text cut after `max_chars` characters, with an ellipsis where it was cut.
pub open spec fn truncated(s: Seq<char>, max_chars: nat) -> Seq<char> {
    if s.len() <= max_chars {
        s
    } else {
        s.take(max_chars as int) + "…"@
    }
}

/// Keeps the first `max_chars` characters of a text; a text that was longer
/// ends in an ellipsis.
pub fn truncate(s: &str, max_chars: usize) -> (r: String)
    ensures
        r@ == truncated(s@, max_chars as nat),
{
    if s.unicode_len() <= max_chars {
        s.to_owned()
    } else {
        let mut r: String = s.substring_char(0, max_chars).to_owned();
        r.append("…");
        r
    }
}

/// A truncated text starts like the whole text and, beside the ellipsis, never
/// has more than `max_chars` characters.
pub proof fn law_truncate_keeps_a_bounded_prefix(s: Seq<char>, max_chars: nat)
    ensures
        truncated(s, max_chars).len() <= max_chars + 1,
        s.len() <= max_chars ==> truncated(s, max_chars) == s,
        s.len() > max_chars ==> truncated(s, max_chars).drop_last() == s.take(max_chars as int),
{
    reveal_strlit("…");
    if s.len() > max_chars {
        assert(truncated(s, max_chars).drop_last() =~= s.take(max_chars as int));
    }
}

} // verus!
