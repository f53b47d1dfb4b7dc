//! Fixed-point arithmetic for levels, progress values and angles.

use vstd::prelude::*;

verus! {

/// The fixed-point value that stands for `1.0`.
pub const UNIT: i64 = 1_000_000;

/// The largest byte value of a DMX slot or a WLED colour component.
pub const BYTE_MAX: i64 = 255;

/// The value `x` brought into the range of `i64`.
pub open spec fn sat(x: int) -> int {
    if x < i64::MIN {
        i64::MIN as int
    } else if x > i64::MAX {
        i64::MAX as int
    } else {
        x
    }
}

/// `x` clamped into `[lo, hi]`.
pub open spec fn clamp(x: int, lo: int, hi: int) -> int {
    if x < lo {
        lo
    } else if x > hi {
        hi
    } else {
        x
    }
}

/// Floor division of `n` by a positive `d`.
pub open spec fn floor_div(n: int, d: int) -> int
    recommends
        d > 0,
{
    if n >= 0 {
        n / d
    } else {
        -((-n + d - 1) / d)
    }
}

/// Linear blend of `a` towards `b` by the fixed-point fraction `t`:
/// `a + (b - a)·t`, rounded down.
pub open spec fn lerp(a: int, b: int, t: int) -> int {
    sat(a + floor_div((b - a) * t, UNIT as int))
}

/// The byte that a level becomes in a universe: `clamp(v·255, 0, 255)`,
/// rounded down.
pub open spec fn level_to_byte(v: int) -> int {
    clamp(floor_div(v * BYTE_MAX, UNIT as int), 0, BYTE_MAX as int)
}

/// Brings a wide intermediate value into the range of `i64`.
pub fn saturate(x: i128) -> (r: i64)
    ensures
        r == sat(x as int),
{
    if x < i64::MIN as i128 {
        i64::MIN
    } else if x > i64::MAX as i128 {
        i64::MAX
    } else {
        x as i64
    }
}

/// `(m + d - 1) / d` is the quotient rounded up.
proof fn lemma_ceil_div(m: int, d: int)
    requires
        m >= 0,
        d > 0,
    ensures
        (m + d - 1) / d == if m % d == 0 { m / d } else { m / d + 1 },
{
    let q = m / d;
    let r = m % d;
    vstd::arithmetic::div_mod::lemma_fundamental_div_mod(m, d);
    assert(0 <= r < d);
    assert(m == q * d + r) by (nonlinear_arith)
        requires
            m == d * q + r,
    ;
    assert((q + 1) * d == q * d + d) by (nonlinear_arith);
    if r == 0 {
        assert((m + d - 1) / d == q) by {
            vstd::arithmetic::div_mod::lemma_fundamental_div_mod_converse(m + d - 1, d, q, d - 1);
        }
    } else {
        assert((m + d - 1) / d == q + 1) by {
            vstd::arithmetic::div_mod::lemma_fundamental_div_mod_converse(m + d - 1, d, q + 1, r - 1);
        }
    }
}

/// Floor division of `n` by a positive `d`.
pub fn div_floor(n: i128, d: i128) -> (r: i128)
    requires
        d > 0,
        n > i128::MIN,
    ensures
        r == floor_div(n as int, d as int),
{
    if n >= 0 {
        n / d
    } else {
        let m: i128 = -n;
        let q: i128 = m / d;
        let r: i128 = m % d;
        proof {
            lemma_ceil_div(m as int, d as int);
        }
        if r == 0 {
            -q
        } else {
            assert(q < i128::MAX) by (nonlinear_arith)
                requires
                    q == m / d,
                    r == m % d,
                    r != 0,
                    0 <= m <= i128::MAX,
                    d > 0,
            {
                if d == 1 {
                    assert(m % 1 == 0);
                } else {
                    assert(m / d <= m / 2) by {
                        vstd::arithmetic::div_mod::lemma_div_is_ordered_by_denominator(m as int, 2, d as int);
                    }
                }
            }
            -(q + 1)
        }
    }
}

/// A bound on the product of a difference of two `i64` and an `i64`.
pub open spec fn product_bound() -> int {
    0xffff_ffff_ffff_ffffint * 0x8000_0000_0000_0000int
}

/// `d·t` for a `d` within the range of a difference of two `i64`.
fn mul_bounded(d: i128, t: i64) -> (r: i128)
    requires
        -0xffff_ffff_ffff_ffff <= d <= 0xffff_ffff_ffff_ffff,
    ensures
        r == d * t,
        -product_bound() <= r <= product_bound(),
{
    assert(-product_bound() <= d * (t as int) <= product_bound()) by (nonlinear_arith)
        requires
            -0xffff_ffff_ffff_ffff <= d <= 0xffff_ffff_ffff_ffff,
            -0x8000_0000_0000_0000 <= t <= 0x7fff_ffff_ffff_ffff,
    ;
    d * (t as i128)
}

/// Linear blend of `a` towards `b` by the fixed-point fraction `t`.
pub fn blend(a: i64, b: i64, t: i64) -> (r: i64)
    ensures
        r == lerp(a as int, b as int, t as int),
{
    let diff: i128 = b as i128 - a as i128;
    let prod: i128 = mul_bounded(diff, t);
    let step: i128 = div_floor(prod, UNIT as i128);
    assert(-product_bound() <= step <= product_bound()) by (nonlinear_arith)
        requires
            -product_bound() <= prod <= product_bound(),
            step == floor_div(prod as int, 1_000_000),
    ;
    saturate(a as i128 + step)
}

/// The byte that a level becomes in a universe.
pub fn to_byte(v: i64) -> (r: u8)
    ensures
        r == level_to_byte(v as int),
{
    let scaled: i128 = div_floor(v as i128 * 255, UNIT as i128);
    if scaled < 0 {
        0
    } else if scaled > 255 {
        255
    } else {
        scaled as u8
    }
}

} // verus!
