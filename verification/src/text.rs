//! Verified text building blocks: decimal rendering and fixed-point
//! percentages, with exact `Seq<char>` specifications.

use vstd::prelude::*;
use vstd::string::StringExecFns;

verus! {

/// The character sequence for one decimal digit.
pub open spec fn spec_digit(d: int) -> Seq<char> {
    if d == 0 {
        "0"@
    } else if d == 1 {
        "1"@
    } else if d == 2 {
        "2"@
    } else if d == 3 {
        "3"@
    } else if d == 4 {
        "4"@
    } else if d == 5 {
        "5"@
    } else if d == 6 {
        "6"@
    } else if d == 7 {
        "7"@
    } else if d == 8 {
        "8"@
    } else {
        "9"@
    }
}

/// Decimal rendering of a non-negative integer, most significant digit
/// first.
pub open spec fn spec_dec(n: int) -> Seq<char>
    decreases n,
{
    if n < 10 {
        spec_digit(n)
    } else {
        spec_dec(n / 10) + spec_digit(n % 10)
    }
}

/// A micro-unit fraction rendered as a percentage with one decimal place,
/// rounded half-up in tenths of a percent: 800_000 renders as "80.0",
/// 805_500 as "80.6".
pub open spec fn spec_percent1(micro: int) -> Seq<char> {
    let tenths = (micro + 500) / 1000;
    spec_dec(tenths / 10) + "."@ + spec_digit(tenths % 10)
}

/// Append the digit character for `d`.
pub fn append_digit(s: &mut String, d: u64)
    requires
        d < 10,
    ensures
        final(s)@ == old(s)@ + spec_digit(d as int),
{
    match d {
        0 => s.append("0"),
        1 => s.append("1"),
        2 => s.append("2"),
        3 => s.append("3"),
        4 => s.append("4"),
        5 => s.append("5"),
        6 => s.append("6"),
        7 => s.append("7"),
        8 => s.append("8"),
        _ => s.append("9"),
    }
}

/// Append the decimal rendering of `n`.
pub fn append_dec(s: &mut String, n: u64)
    ensures
        final(s)@ == old(s)@ + spec_dec(n as int),
    decreases n,
{
    if n < 10 {
        append_digit(s, n);
    } else {
        append_dec(s, n / 10);
        append_digit(s, n % 10);
        proof {
            assert(final(s)@ =~= old(s)@ + spec_dec(n as int));
        }
    }
}

/// Append the one-decimal percentage rendering of a micro-unit fraction.
pub fn append_percent1(s: &mut String, micro: u64)
    requires
        micro <= u64::MAX - 500,
    ensures
        final(s)@ == old(s)@ + spec_percent1(micro as int),
{
    let tenths = (micro + 500) / 1000;
    append_dec(s, tenths / 10);
    s.append(".");
    append_digit(s, tenths % 10);
    proof {
        assert(final(s)@ =~= old(s)@ + spec_percent1(micro as int));
    }
}

} // verus!
