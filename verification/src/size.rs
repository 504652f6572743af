//! Byte counts in words: `"512 B"`, `"1.50 KB"`.
//!
//! A count below 1024 is printed as it is. A larger one is scaled by powers
//! of 1024 to the largest unit that leaves at least 1, up to petabytes, and
//! printed with two decimals. The scaled value is that of the nearest
//! double-precision number, rounded to hundredths with ties going to the even
//! neighbour, so the text is the one that double-precision formatting gives.

use vstd::prelude::*;
use vstd::string::*;

verus! {

/// The character for a decimal digit.
pub open spec fn digit(d: nat) -> char {
    if d == 0 {
        '0'
    } else if d == 1 {
        '1'
    } else if d == 2 {
        '2'
    } else if d == 3 {
        '3'
    } else if d == 4 {
        '4'
    } else if d == 5 {
        '5'
    } else if d == 6 {
        '6'
    } else if d == 7 {
        '7'
    } else if d == 8 {
        '8'
    } else {
        '9'
    }
}

/// The decimal numeral of `n`, without leading zeros.
pub open spec fn decimal(n: nat) -> Seq<char>
    decreases n,
{
    if n < 10 {
        seq![digit(n)]
    } else {
        decimal(n / 10).push(digit(n % 10))
    }
}

/// The distance between neighbouring double-precision numbers at `b`: 1 up to
/// 2^53, and twice as much with every further bit.
pub open spec fn double_grain(b: nat) -> nat
    decreases b,
{
    if b < 0x20_0000_0000_0000 {
        1
    } else {
        2 * double_grain(b / 2)
    }
}

/// The whole number nearest to `n / d`; a tie goes to the even one.
pub open spec fn div_nearest_even(n: nat, d: nat) -> nat
    recommends
        d > 0,
{
    let q = n / d;
    let r = n % d;
    if 2 * r > d || (2 * r == d && q % 2 == 1) {
        q + 1
    } else {
        q
    }
}

/// The double-precision number nearest to `b`.
pub open spec fn nearest_double(b: nat) -> nat {
    div_nearest_even(b, double_grain(b)) * double_grain(b)
}

/// The unit a count of `b` bytes is printed in: 0 for bytes, 1 for KB, up to
/// 5 for PB.
pub open spec fn unit_index(b: nat) -> nat {
    if b < 0x400 {
        0
    } else if b < 0x10_0000 {
        1
    } else if b < 0x4000_0000 {
        2
    } else if b < 0x100_0000_0000 {
        3
    } else if b < 0x4_0000_0000_0000 {
        4
    } else {
        5
    }
}

/// The number of bytes in one unit: 1024 to the power `k`.
pub open spec fn unit_scale(k: nat) -> nat {
    if k == 0 {
        1
    } else if k == 1 {
        0x400
    } else if k == 2 {
        0x10_0000
    } else if k == 3 {
        0x4000_0000
    } else if k == 4 {
        0x100_0000_0000
    } else {
        0x4_0000_0000_0000
    }
}

/// The name of a unit.
pub open spec fn unit_name(k: nat) -> Seq<char> {
    if k == 0 {
        "B"@
    } else if k == 1 {
        "KB"@
    } else if k == 2 {
        "MB"@
    } else if k == 3 {
        "GB"@
    } else if k == 4 {
        "TB"@
    } else {
        "PB"@
    }
}

/// A count of `b` bytes in its unit, in hundredths.
pub open spec fn scaled_hundredths(b: nat) -> nat {
    div_nearest_even(nearest_double(b) * 100, unit_scale(unit_index(b)))
}

/// The text for a count of `b` bytes.
pub open spec fn human_size(b: nat) -> Seq<char> {
    if b < 1024 {
        decimal(b) + " B"@
    } else {
        let h = scaled_hundredths(b);
        decimal(h / 100).push('.').push(digit((h % 100) / 10)).push(digit(h % 10)).push(' ')
            + unit_name(unit_index(b))
    }
}

fn digit_char(d: u8) -> (c: char)
    requires
        d < 10,
    ensures
        c == digit(d as nat),
{
    if d == 0 {
        '0'
    } else if d == 1 {
        '1'
    } else if d == 2 {
        '2'
    } else if d == 3 {
        '3'
    } else if d == 4 {
        '4'
    } else if d == 5 {
        '5'
    } else if d == 6 {
        '6'
    } else if d == 7 {
        '7'
    } else if d == 8 {
        '8'
    } else {
        '9'
    }
}

/// Appends the decimal numeral of `n` to `s`.
pub fn push_decimal(s: &mut String, n: u128)
    ensures
        final(s)@ == old(s)@ + decimal(n as nat),
    decreases n,
{
    if n >= 10 {
        push_decimal(s, n / 10);
    }
    s.push(digit_char((n % 10) as u8));
    proof {
        if n >= 10 {
            assert(final(s)@ =~= old(s)@ + decimal(n as nat));
        } else {
            assert(final(s)@ =~= old(s)@ + decimal(n as nat));
        }
    }
}

fn div_half_even(n: u128, d: u128) -> (q: u128)
    requires
        d > 0,
        d <= 0x4_0000_0000_0000,
        n <= 0xFFFF_FFFF_FFFF_FFFF_FFFF,
    ensures
        q == div_nearest_even(n as nat, d as nat),
        q <= n / d + 1,
{
    let q = n / d;
    let r = n % d;
    if 2 * r > d || (2 * r == d && q % 2 == 1) {
        q + 1
    } else {
        q
    }
}

fn grain_of(bytes: u64) -> (d: u64)
    ensures
        d == double_grain(bytes as nat),
        1 <= d <= 4096,
{
    let mut d: u64 = 1;
    let mut t: u64 = bytes;
    while t >= 0x20_0000_0000_0000
        invariant
            1 <= d <= 4096,
            d * t <= bytes,
            double_grain(bytes as nat) == d * double_grain(t as nat),
        decreases t,
    {
        assert(d < 2048) by (nonlinear_arith)
            requires
                d * t <= bytes,
                t >= 0x20_0000_0000_0000,
                bytes <= 0xFFFF_FFFF_FFFF_FFFF,
                d >= 1,
        ;
        let ghost old_d = d;
        let ghost old_t = t;
        d = d * 2;
        t = t / 2;
        assert(d * t <= old_d * old_t) by (nonlinear_arith)
            requires
                d == 2 * old_d,
                2 * t <= old_t,
                old_d >= 1,
                t >= 0,
        ;
        assert(old_d * (2 * double_grain(t as nat)) == d * double_grain(t as nat))
            by (nonlinear_arith)
            requires
                d == 2 * old_d,
        ;
    }
    assert(d * 1 == d);
    d
}

fn unit_of(bytes: u64) -> (k: u8)
    ensures
        k == unit_index(bytes as nat),
        k <= 5,
{
    if bytes < 0x400 {
        0
    } else if bytes < 0x10_0000 {
        1
    } else if bytes < 0x4000_0000 {
        2
    } else if bytes < 0x100_0000_0000 {
        3
    } else if bytes < 0x4_0000_0000_0000 {
        4
    } else {
        5
    }
}

fn scale_of(k: u8) -> (scale: u128)
    requires
        k <= 5,
    ensures
        scale == unit_scale(k as nat),
        0 < scale <= 0x4_0000_0000_0000,
{
    if k == 0 {
        1
    } else if k == 1 {
        0x400
    } else if k == 2 {
        0x10_0000
    } else if k == 3 {
        0x4000_0000
    } else if k == 4 {
        0x100_0000_0000
    } else {
        0x4_0000_0000_0000
    }
}

fn name_of(k: u8) -> (name: &'static str)
    requires
        k <= 5,
    ensures
        name@ == unit_name(k as nat),
{
    if k == 0 {
        "B"
    } else if k == 1 {
        "KB"
    } else if k == 2 {
        "MB"
    } else if k == 3 {
        "GB"
    } else if k == 4 {
        "TB"
    } else {
        "PB"
    }
}

/// A byte count in words: below 1024 the count and `B`, from there on the
/// count in the largest fitting unit of `KB`, `MB`, `GB`, `TB`, `PB` with two
/// decimals.
pub fn human_readable_size(bytes: u64) -> (text: String)
    ensures
        text@ == human_size(bytes as nat),
{
    let mut text = String::new();
    if bytes < 1024 {
        push_decimal(&mut text, bytes as u128);
        text.append(" B");
        assert(text@ =~= human_size(bytes as nat));
        return text;
    }
    let k = unit_of(bytes);
    let d = grain_of(bytes);
    let whole = div_half_even(bytes as u128, d as u128);
    assert(whole * d <= bytes + d) by (nonlinear_arith)
        requires
            whole <= bytes as u128 / d as u128 + 1,
            d >= 1,
    ;
    let x = whole * (d as u128);
    let h = div_half_even(x * 100, scale_of(k));
    push_decimal(&mut text, h / 100);
    text.push('.');
    text.push(digit_char(((h % 100) / 10) as u8));
    text.push(digit_char((h % 10) as u8));
    text.push(' ');
    text.append(name_of(k));
    assert(text@ =~= human_size(bytes as nat));
    text
}

} // verus!
