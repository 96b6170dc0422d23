//! Sizes of files as text.
use vstd::prelude::*;
use crate::text::{concat, concat3, decimal, decimal_string};

verus! {

/// A kilobyte.
pub const KB: u64 = 1024;

/// A megabyte.
pub const MB: u64 = 1048576;

/// A gigabyte.
pub const GB: u64 = 1073741824;

/// The distance between the numbers of 53 significant bits around a number.
pub open spec fn grain(n: u64) -> int {
    if n < 9007199254740992 {
        1
    } else if n < 18014398509481984 {
        2
    } else if n < 36028797018963968 {
        4
    } else if n < 72057594037927936 {
        8
    } else if n < 144115188075855872 {
        16
    } else if n < 288230376151711744 {
        32
    } else if n < 576460752303423488 {
        64
    } else if n < 1152921504606846976 {
        128
    } else if n < 2305843009213693952 {
        256
    } else if n < 4611686018427387904 {
        512
    } else if n < 9223372036854775808 {
        1024
    } else {
        2048
    }
}

/// A quotient, rounded to the nearest number, and a tie to the even one.
pub open spec fn rounded(a: int, b: int) -> int {
    let q = a / b;
    let r = a % b;
    if 2 * r > b || (2 * r == b && q % 2 == 1) {
        q + 1
    } else {
        q
    }
}

/// A number of bytes in double precision.
pub open spec fn in_double(n: u64) -> int {
    rounded(n as int, grain(n)) * grain(n)
}

/// How many tenths of a unit a number of bytes is.
pub open spec fn tenths(n: u64, unit: u64) -> int {
    rounded(10 * in_double(n), unit as int)
}

/// A number of tenths with one digit behind the point.
pub open spec fn fixed_point(tenths: int) -> Seq<char> {
    decimal((tenths / 10) as nat) + "."@ + decimal((tenths % 10) as nat)
}

/// A number of bytes in the largest unit that it reaches, with one digit behind
/// the point, or in bytes.
pub open spec fn size_text(bytes: u64) -> Seq<char> {
    if bytes >= GB {
        fixed_point(tenths(bytes, GB)) + " GB"@
    } else if bytes >= MB {
        fixed_point(tenths(bytes, MB)) + " MB"@
    } else if bytes >= KB {
        fixed_point(tenths(bytes, KB)) + " KB"@
    } else {
        decimal(bytes as nat) + " B"@
    }
}

fn grain_of(n: u64) -> (g: u128)
    ensures
        g == grain(n),
        1 <= g <= 2048,
{
    if n < 9007199254740992 {
        1
    } else if n < 18014398509481984 {
        2
    } else if n < 36028797018963968 {
        4
    } else if n < 72057594037927936 {
        8
    } else if n < 144115188075855872 {
        16
    } else if n < 288230376151711744 {
        32
    } else if n < 576460752303423488 {
        64
    } else if n < 1152921504606846976 {
        128
    } else if n < 2305843009213693952 {
        256
    } else if n < 4611686018427387904 {
        512
    } else if n < 9223372036854775808 {
        1024
    } else {
        2048
    }
}

fn round_div(a: u128, b: u128) -> (q: u128)
    requires
        0 < b <= 1073741824,
        a <= 1000000000000000000000,
    ensures
        q == rounded(a as int, b as int),
        q <= a + 1,
{
    let q: u128 = a / b;
    let r: u128 = a % b;
    assert(q <= a) by (nonlinear_arith)
        requires
            q == a / b,
            b > 0,
    ;
    if 2 * r > b || (2 * r == b && q % 2 == 1) {
        q + 1
    } else {
        q
    }
}

fn tenths_text(bytes: u64, unit: u64) -> (s: String)
    requires
        1024 <= unit <= 1073741824,
    ensures
        s@ == fixed_point(tenths(bytes, unit)),
{
    let g = grain_of(bytes);
    let n = round_div(bytes as u128, g);
    assert(n * g <= 40000000000000000000) by {
        let (b, q, r) = (bytes as int, bytes as int / g as int, bytes as int % g as int);
        vstd::arithmetic::div_mod::lemma_fundamental_div_mod(b, g as int);
        assert(g * q <= b) by (nonlinear_arith)
            requires
                b == g * q + r,
                r >= 0,
        ;
        assert(n * g <= (q + 1) * g) by (nonlinear_arith)
            requires
                n <= q + 1,
                g >= 1,
        ;
        assert((q + 1) * g == g * q + g) by (nonlinear_arith);
    }
    let double: u128 = n * g;
    let t = round_div(10 * double, unit as u128);
    assert(t <= 1000000000000000000) by {
        let (a, u) = (10 * double as int, unit as int);
        assert(a / u <= 400000000000000000) by (nonlinear_arith)
            requires
                0 <= a <= 400000000000000000000,
                u >= 1024,
        ;
    }
    let whole: u64 = (t / 10) as u64;
    let part: u64 = (t % 10) as u64;
    let a = decimal_string(whole);
    let b = decimal_string(part);
    concat3(a.as_str(), ".", b.as_str())
}

/// Formats a number of bytes.
pub fn format_size(bytes: u64) -> (s: String)
    ensures
        s@ == size_text(bytes),
{
    if bytes >= GB {
        let n = tenths_text(bytes, GB);
        concat(n.as_str(), " GB")
    } else if bytes >= MB {
        let n = tenths_text(bytes, MB);
        concat(n.as_str(), " MB")
    } else if bytes >= KB {
        let n = tenths_text(bytes, KB);
        concat(n.as_str(), " KB")
    } else {
        let n = decimal_string(bytes);
        concat(n.as_str(), " B")
    }
}

} // verus!
