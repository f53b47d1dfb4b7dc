//! Effect timing: from a clock to a progress value, with phase, mirroring and
//! easing.

use vstd::prelude::*;

use crate::fixed::{div_floor, floor_div, UNIT};
use crate::model::{BeatMetadata, Easing, EffectTiming, Timing};

verus! {

/// `x / d` in fixed point (`x·UNIT / d`, rounded down); 0 for a zero `d`.
pub open spec fn ratio(x: int, d: int) -> int {
    if d == 0 {
        0
    } else {
        floor_div(x * UNIT, d)
    }
}

/// Beats elapsed since the beat clock's offset, in fixed point.
pub open spec fn beat_progress(system_t: u64, beat: BeatMetadata) -> int {
    ratio(system_t - beat.offset_ms, beat.length_ms as int)
}

/// The fractional part of a fixed-point value, keeping its sign.
pub open spec fn fract(x: int) -> int {
    if x >= 0 {
        x % (UNIT as int)
    } else {
        -((-x) % (UNIT as int))
    }
}

/// A triangle: up over the first half, down over the second.
pub open spec fn mirror(t: int) -> int {
    if t < UNIT / 2 {
        2 * t
    } else {
        2 * (UNIT - t)
    }
}

/// `cos(π·x)` for `x` in `[0, ½]` (fixed point), by Bhaskara's rational form
/// `(1 − 4x²) / (1 + x²)`: exact at 0 and ½, within 0.2% between.
pub open spec fn cos_pi_quarter(x: int) -> int {
    floor_div(UNIT * (UNIT * UNIT - 4 * x * x), UNIT * UNIT + x * x)
}

/// `cos(π·x)` for any fixed-point `x`, by symmetry from `[0, ½]`.
pub open spec fn cos_pi(x: int) -> int {
    let a = if x >= 0 {
        x % (2 * UNIT)
    } else {
        (-x) % (2 * UNIT)
    };
    let b = if a > UNIT {
        2 * UNIT - a
    } else {
        a
    };
    if b <= UNIT / 2 {
        cos_pi_quarter(b)
    } else {
        -cos_pi_quarter(UNIT - b)
    }
}

/// The easing curves: `t`, `t³`, `1 − (1 − t)³`, `t²(3 − 2t)` and the
/// half-cosine `(1 − cos(πt))/2`; each runs from 0 at 0 to 1 at 1.
pub open spec fn ease(e: Easing, t: int) -> int {
    match e {
        Easing::Linear => t,
        Easing::EaseIn => floor_div(t * t * t, UNIT * UNIT),
        Easing::EaseOut => UNIT - floor_div((UNIT - t) * (UNIT - t) * (UNIT - t), UNIT * UNIT),
        Easing::EaseInOut => floor_div(t * t * (3 * UNIT - 2 * t), UNIT * UNIT),
        Easing::Sine => floor_div(UNIT - cos_pi(t), 2),
    }
}

/// Progress before phase, mirror and easing; `None` without a timing mode.
pub open spec fn base_progress(timing: Option<Timing>, ms_since_start: u64, effect_duration_ms: u64, beat_t: int) -> Option<int> {
    match timing {
        Some(Timing::Absolute { duration_ms }) => Some(ratio(ms_since_start as int, duration_ms as int)),
        Some(Timing::Beat { multiplier }) => Some(
            if multiplier == 0 {
                0
            } else {
                floor_div(beat_t, multiplier as int)
            },
        ),
        Some(Timing::OneShot) => Some(ratio(ms_since_start as int, effect_duration_ms as int)),
        None => None,
    }
}

/// The progress of an effect for the fixture at `index` of `count`: base
/// progress, plus `phase·index/count`, wrapped to its fractional part,
/// mirrored if asked, then eased.
pub open spec fn timing_progress(
    timing: EffectTiming,
    ms_since_start: u64,
    effect_duration_ms: u64,
    beat_t: int,
    index: int,
    count: int,
) -> Option<int> {
    match base_progress(timing.timing, ms_since_start, effect_duration_ms, beat_t) {
        Some(t0) => {
            let t1 = fract(t0 + floor_div(timing.phase * index, count));
            let t2 = if timing.mirrored {
                mirror(t1)
            } else {
                t1
            };
            Some(ease(timing.easing, t2))
        },
        None => None,
    }
}

/// The beat clock's progress at `system_t`, in fixed point; 0 for a beat of
/// zero length.
pub fn beat_t_at(system_t: u64, beat: &BeatMetadata) -> (r: i128)
    ensures
        r == beat_progress(system_t, *beat),
        -0x1_0000_0000_0000_0000 * UNIT <= r <= 0x1_0000_0000_0000_0000 * UNIT,
{
    let since: i128 = system_t as i128 - beat.offset_ms as i128;
    ratio_of(since, beat.length_ms)
}

/// `x / d` in fixed point; 0 for a zero `d`.
pub fn ratio_of(x: i128, d: u64) -> (r: i128)
    requires
        -0x1_0000_0000_0000_0000 <= x <= 0x1_0000_0000_0000_0000,
    ensures
        r == ratio(x as int, d as int),
        -0x1_0000_0000_0000_0000 * UNIT <= r <= 0x1_0000_0000_0000_0000 * UNIT,
{
    if d == 0 {
        0
    } else {
        let n: i128 = x * 1_000_000;
        let r = div_floor(n, d as i128);
        proof {
            lemma_floor_div_bounded(n as int, d as int, 0x1_0000_0000_0000_0000 * UNIT);
        }
        r
    }
}

fn cos_quarter(x: i128) -> (r: i128)
    requires
        0 <= x <= UNIT / 2,
    ensures
        r == cos_pi_quarter(x as int),
        0 <= r <= UNIT,
{
    assert(0 <= x * x <= 250_000_000_000) by (nonlinear_arith)
        requires
            0 <= x <= 500_000,
    ;
    let xx: i128 = x * x;
    let inner: i128 = 1_000_000_000_000 - 4 * xx;
    let num: i128 = 1_000_000 * inner;
    let den: i128 = 1_000_000_000_000 + xx;
    proof {
        lemma_cos_quarter_bounded(x as int);
    }
    assert(num == UNIT * (UNIT * UNIT - 4 * x * x)) by (nonlinear_arith)
        requires
            num == 1_000_000 * inner,
            inner == 1_000_000_000_000 - 4 * xx,
            xx == x * x,
    ;
    assert(den == UNIT * UNIT + x * x);
    num / den
}

fn cos_pi_of(x: i128) -> (r: i128)
    requires
        -4 * UNIT <= x <= 4 * UNIT,
    ensures
        r == cos_pi(x as int),
        -UNIT <= r <= UNIT,
{
    let two: i128 = 2_000_000;
    let a: i128 = if x >= 0 {
        x % two
    } else {
        (-x) % two
    };
    let b: i128 = if a > 1_000_000 {
        two - a
    } else {
        a
    };
    if b <= 500_000 {
        cos_quarter(b)
    } else {
        -cos_quarter(1_000_000 - b)
    }
}

fn cube(t: i128) -> (r: i128)
    requires
        -5 * UNIT <= t <= 5 * UNIT,
    ensures
        r == t * t * t,
        -125 * UNIT * UNIT * UNIT <= r <= 125 * UNIT * UNIT * UNIT,
{
    let u: i128 = 1_000_000;
    assert(0 <= t * t <= 25 * u * u) by (nonlinear_arith)
        requires
            -5 * u <= t <= 5 * u,
            u == 1_000_000,
    ;
    let tt: i128 = t * t;
    assert(-125 * u * u * u <= tt * t <= 125 * u * u * u) by (nonlinear_arith)
        requires
            0 <= tt <= 25 * u * u,
            -5 * u <= t <= 5 * u,
            u == 1_000_000,
    ;
    let r: i128 = tt * t;
    assert(r == t * t * t) by (nonlinear_arith)
        requires
            tt == t * t,
            r == tt * t,
    ;
    r
}

/// Applies an easing curve to `t`.
pub fn ease_curve(e: Easing, t: i128) -> (r: i128)
    requires
        -4 * UNIT <= t <= 4 * UNIT,
    ensures
        r == ease(e, t as int),
{
    let u: i128 = 1_000_000;
    let uu: i128 = 1_000_000_000_000;
    match e {
        Easing::Linear => t,
        Easing::EaseIn => {
            let c = cube(t);
            div_floor(c, uu)
        },
        Easing::EaseOut => {
            let s: i128 = u - t;
            let c = cube(s);
            let q = div_floor(c, uu);
            assert(-125 * u <= q <= 125 * u) by (nonlinear_arith)
                requires
                    -125 * u * u * u <= s * s * s <= 125 * u * u * u,
                    q == floor_div(s * s * s, uu as int),
                    u == 1_000_000,
                    uu == 1_000_000_000_000,
            ;
            u - q
        },
        Easing::EaseInOut => {
            let w: i128 = 3 * u - 2 * t;
            assert(0 <= t * t <= 16 * u * u) by (nonlinear_arith)
                requires
                    -4 * u <= t <= 4 * u,
                    u == 1_000_000,
            ;
            let tt: i128 = t * t;
            assert(-176 * u * u * u <= tt * w <= 176 * u * u * u) by (nonlinear_arith)
                requires
                    0 <= tt <= 16 * u * u,
                    -5 * u <= w <= 11 * u,
                    u == 1_000_000,
            ;
            let p: i128 = tt * w;
            assert(p == t * t * w) by (nonlinear_arith)
                requires
                    tt == t * t,
                    p == tt * w,
            ;
            div_floor(p, uu)
        },
        Easing::Sine => {
            let c = cos_pi_of(t);
            div_floor(u - c, 2)
        },
    }
}

/// The progress of an effect for the fixture at `index` of `count`, or `None`
/// where the timing names no mode.
pub fn calculate_timing(
    effect_timing: &EffectTiming,
    ms_since_start: u64,
    effect_duration_ms: u64,
    beat_t: i128,
    index: usize,
    count: usize,
) -> (r: Option<i64>)
    requires
        index < count,
        -0x1_0000_0000_0000_0000 * UNIT <= beat_t <= 0x1_0000_0000_0000_0000 * UNIT,
    ensures
        r matches Some(v) ==> timing_progress(*effect_timing, ms_since_start, effect_duration_ms, beat_t as int, index as int, count as int) == Some(v as int),
        r is None ==> timing_progress(*effect_timing, ms_since_start, effect_duration_ms, beat_t as int, index as int, count as int) is None,
{
    let t0: i128 = match effect_timing.timing {
        Some(Timing::Absolute { duration_ms }) => ratio_of(ms_since_start as i128, duration_ms),
        Some(Timing::Beat { multiplier }) => if multiplier == 0 {
            0
        } else {
            let q = div_floor(beat_t, multiplier as i128);
            assert(-0x1_0000_0000_0000_0000 * UNIT <= q <= 0x1_0000_0000_0000_0000 * UNIT) by (nonlinear_arith)
                requires
                    -0x1_0000_0000_0000_0000 * UNIT <= beat_t <= 0x1_0000_0000_0000_0000 * UNIT,
                    multiplier >= 1,
                    q == floor_div(beat_t as int, multiplier as int),
            {
                if beat_t >= 0 {
                    vstd::arithmetic::div_mod::lemma_div_is_ordered_by_denominator(beat_t as int, 1, multiplier as int);
                } else {
                    vstd::arithmetic::div_mod::lemma_div_is_ordered_by_denominator((-beat_t + multiplier - 1) as int, 1, multiplier as int);
                    if multiplier > 1 {
                        vstd::arithmetic::div_mod::lemma_div_is_ordered_by_denominator((-beat_t + multiplier - 1) as int, 2, multiplier as int);
                    }
                }
            }
            q
        },
        Some(Timing::OneShot) => ratio_of(ms_since_start as i128, effect_duration_ms),
        None => {
            return None;
        },
    };
    let prod: i128 = phase_product(effect_timing.phase, index);
    let shift = div_floor(prod, count as i128);
    proof {
        lemma_phase_shift_bounded(effect_timing.phase as int, index as int, count as int);
    }
    let sum: i128 = t0 + shift;
    let t1: i128 = if sum >= 0 {
        sum % 1_000_000
    } else {
        -((-sum) % 1_000_000)
    };
    let t2: i128 = if effect_timing.mirrored {
        if t1 < 500_000 {
            2 * t1
        } else {
            2 * (1_000_000 - t1)
        }
    } else {
        t1
    };
    let e = ease_curve(effect_timing.easing, t2);
    assert(-0x8000_0000_0000_0000 <= e <= 0x7fff_ffff_ffff_ffff) by {
        lemma_ease_bounded(effect_timing.easing, t2 as int);
    }
    Some(e as i64)
}

fn phase_product(phase: i64, index: usize) -> (r: i128)
    ensures
        r == phase * index,
        -0x8000_0000_0000_0000 * 0xffff_ffff_ffff_ffff <= r <= 0x8000_0000_0000_0000 * 0xffff_ffff_ffff_ffff,
{
    assert(-0x8000_0000_0000_0000 * 0xffff_ffff_ffff_ffff <= phase * index <= 0x8000_0000_0000_0000 * 0xffff_ffff_ffff_ffff) by (nonlinear_arith)
        requires
            -0x8000_0000_0000_0000 <= phase <= 0x8000_0000_0000_0000,
            0 <= index <= 0xffff_ffff_ffff_ffff,
    ;
    phase as i128 * index as i128
}

proof fn lemma_phase_shift_bounded(phase: int, index: int, count: int)
    requires
        0 <= index < count,
        -0x8000_0000_0000_0000 <= phase <= 0x8000_0000_0000_0000,
    ensures
        -0x8000_0000_0000_0000 <= floor_div(phase * index, count) <= 0x8000_0000_0000_0000,
{
    let m = if phase >= 0 {
        phase
    } else {
        -phase
    };
    assert(-(m * count) <= phase * index <= m * count) by (nonlinear_arith)
        requires
            0 <= index < count,
            m == if phase >= 0 {
                phase
            } else {
                -phase
            },
    ;
    let n = phase * index;
    assert((m * count) / count == m) by {
        vstd::arithmetic::div_mod::lemma_div_multiples_vanish(m, count);
        assert(m * count == count * m) by (nonlinear_arith);
    }
    if n >= 0 {
        vstd::arithmetic::div_mod::lemma_div_is_ordered(n, m * count, count);
    } else {
        assert(-n + count - 1 <= m * count + count - 1);
        vstd::arithmetic::div_mod::lemma_div_is_ordered(-n + count - 1, m * count + count - 1, count);
        assert((m * count + count - 1) / count == m) by {
            vstd::arithmetic::div_mod::lemma_fundamental_div_mod_converse(m * count + count - 1, count, m, count - 1);
        }
    }
}

/// On `[-4, 4]` every curve stays within the range of `i64`.
proof fn lemma_ease_bounded(e: Easing, t: int)
    requires
        -4 * UNIT <= t <= 4 * UNIT,
    ensures
        -0x8000_0000_0000_0000 <= ease(e, t) <= 0x7fff_ffff_ffff_ffff,
{
    let u = UNIT as int;
    match e {
        Easing::Linear => {},
        Easing::EaseIn => {
            assert(-64 * u * u * u <= t * t * t <= 64 * u * u * u) by (nonlinear_arith)
                requires
                    -4 * u <= t <= 4 * u,
                    u == 1_000_000,
            ;
            lemma_floor_div_bounded(t * t * t, u * u, 64 * u * u * u);
        },
        Easing::EaseOut => {
            let s = u - t;
            assert(-125 * u * u * u <= s * s * s <= 125 * u * u * u) by (nonlinear_arith)
                requires
                    -5 * u <= s <= 5 * u,
                    u == 1_000_000,
            ;
            lemma_floor_div_bounded(s * s * s, u * u, 125 * u * u * u);
        },
        Easing::EaseInOut => {
            let w = 3 * u - 2 * t;
            assert(-176 * u * u * u <= t * t * w <= 176 * u * u * u) by (nonlinear_arith)
                requires
                    -4 * u <= t <= 4 * u,
                    -5 * u <= w <= 11 * u,
                    u == 1_000_000,
            ;
            lemma_floor_div_bounded(t * t * w, u * u, 176 * u * u * u);
        },
        Easing::Sine => {
            lemma_cos_pi_bounded(t);
            lemma_floor_div_bounded(u - cos_pi(t), 2, 2 * u);
        },
    }
}

/// Floor division by at least 1 keeps a value within a symmetric bound.
pub proof fn lemma_floor_div_bounded(n: int, d: int, m: int)
    requires
        d >= 1,
        -m <= n <= m,
    ensures
        -m <= floor_div(n, d) <= m,
{
    if n >= 0 {
        vstd::arithmetic::div_mod::lemma_div_is_ordered_by_denominator(n, 1, d);
        vstd::arithmetic::div_mod::lemma_div_pos_is_pos(n, d);
    } else {
        assert(m + d - 1 <= m * d) by (nonlinear_arith)
            requires
                m >= 1,
                d >= 1,
        ;
        vstd::arithmetic::div_mod::lemma_div_is_ordered(-n + d - 1, m * d, d);
        vstd::arithmetic::div_mod::lemma_div_multiples_vanish(m, d);
        assert(m * d == d * m) by (nonlinear_arith);
        vstd::arithmetic::div_mod::lemma_div_pos_is_pos(-n + d - 1, d);
    }
}

proof fn lemma_cos_quarter_bounded(y: int)
    requires
        0 <= y <= UNIT / 2,
    ensures
        0 <= cos_pi_quarter(y) <= UNIT,
{
    let u = UNIT as int;
    assert(0 <= y * y <= 250_000_000_000) by (nonlinear_arith)
        requires
            0 <= y <= 500_000,
    ;
    let num = u * (u * u - 4 * y * y);
    let den = u * u + y * y;
    assert(0 <= num <= u * u * u) by (nonlinear_arith)
        requires
            0 <= y * y <= 250_000_000_000,
            num == u * (u * u - 4 * y * y),
            u == 1_000_000,
    ;
    vstd::arithmetic::div_mod::lemma_div_is_ordered_by_denominator(num, u * u, den);
    assert((u * u * u) / (u * u) == u) by (nonlinear_arith)
        requires
            u == 1_000_000,
    ;
    vstd::arithmetic::div_mod::lemma_div_is_ordered(num, u * u * u, u * u);
    vstd::arithmetic::div_mod::lemma_div_pos_is_pos(num, den);
}

/// The cosine stays within `[-1, 1]`.
pub proof fn lemma_cos_pi_bounded(x: int)
    ensures
        -UNIT <= cos_pi(x) <= UNIT,
{
    let u = UNIT as int;
    let a = if x >= 0 {
        x % (2 * u)
    } else {
        (-x) % (2 * u)
    };
    let b = if a > u {
        2 * u - a
    } else {
        a
    };
    if b <= u / 2 {
        lemma_cos_quarter_bounded(b);
    } else {
        lemma_cos_quarter_bounded(u - b);
    }
}

} // verus!
