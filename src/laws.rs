//! Properties that hold of every input, proved over the specifications.

use vstd::prelude::*;

use crate::dmx::{
    apply_updates, dmx_applied, dmx_blended, fixture_mode, lemma_full_universe, state_updates, wheel_flags, DmxRenderTarget, DmxView,
    Update, UNIVERSE_SIZE,
};
use crate::fixed::{floor_div, lerp, UNIT};
use crate::lookup::first_index;
use crate::model::{BeatMetadata, ColorDescription, Easing, EffectTiming, Timing, FixtureState, PaletteColors, QualifiedFixtureId, RandomEffect, TileMap};
use crate::palette::{blend_description, description_color, blend_palette_colors, resolve_color};
use crate::random::{effect_time, parity_sum, slot_width, total_width, window_of, LARGE_PRIME, RANDOM_SCALE, RANDOM_TABLE_SIZE};
use crate::effects::Frame;
use crate::scene::{draw_order, insert_sorted, tile_key_lt, tile_result, tiles_result};
use crate::target::RenderTarget;
use crate::timing::{base_progress, cos_pi, cos_pi_quarter, ease, fract, lemma_cos_pi_bounded, mirror, timing_progress};
use crate::wled::{wled_blended, WledView};

verus! {

// ---------------------------------------------------------------- untouched slots

/// Whether a list of writes touches slot `i`.
pub open spec fn writes_slot(ups: Seq<Update>, i: int) -> bool {
    exists|k: int| 0 <= k < ups.len() && ups[k].0 == i
}

/// A slot that no write touches keeps its level.
pub proof fn lemma_untouched_slot_kept(u: Seq<i64>, ups: Seq<Update>, i: int)
    requires
        0 <= i < u.len(),
        !writes_slot(ups, i),
    ensures
        apply_updates(u, ups).len() == u.len(),
        apply_updates(u, ups)[i] == u[i],
    decreases ups.len(),
{
    crate::dmx::lemma_apply_updates_len(u, ups);
    if ups.len() > 0 {
        let prev = ups.drop_last();
        assert(!writes_slot(prev, i)) by {
            if writes_slot(prev, i) {
                let k = choose|k: int| 0 <= k < prev.len() && prev[k].0 == i;
                assert(ups[k] == prev[k]);
            }
        }
        lemma_untouched_slot_kept(u, prev, i);
        crate::dmx::lemma_apply_updates_len(u, prev);
        assert(ups[ups.len() - 1] == ups.last());
    }
}

/// The slots that writing `state` for fixture `id` touches.
pub open spec fn state_writes_slot(v: DmxView, id: QualifiedFixtureId, state: FixtureState, palette: PaletteColors, i: int) -> bool {
    match first_index(v.fixtures, id.fixture) {
        Some(fi) => match fixture_mode(v.definitions, v.fixtures[fi]) {
            Some(m) => writes_slot(
                state_updates(v.fixtures[fi].channel_offset, m.channels@, state, resolve_color(state, palette)),
                i,
            ),
            None => false,
        },
        None => false,
    }
}

/// Writing a fixture state leaves every slot that the state's fields do not
/// drive as it was: on an empty universe those slots stay 0.
pub proof fn law_untouched_channels_unchanged(
    v: DmxView,
    id: QualifiedFixtureId,
    state: FixtureState,
    palette: PaletteColors,
    i: int,
)
    requires
        0 <= i < v.universe.len(),
        !state_writes_slot(v, id, state, palette, i),
    ensures
        dmx_applied(v, id, state, palette).universe.len() == v.universe.len(),
        dmx_applied(v, id, state, palette).universe[i] == v.universe[i],
{
    match first_index(v.fixtures, id.fixture) {
        Some(fi) => match fixture_mode(v.definitions, v.fixtures[fi]) {
            Some(m) => lemma_untouched_slot_kept(
                v.universe,
                state_updates(v.fixtures[fi].channel_offset, m.channels@, state, resolve_color(state, palette)),
                i,
            ),
            None => {},
        },
        None => {},
    }
}

// ---------------------------------------------------------------- blending

/// A blend by 0 is its first argument, by 1 its second.
pub proof fn lemma_lerp_ends(a: i64, b: i64)
    ensures
        lerp(a as int, b as int, 0) == a,
        lerp(a as int, b as int, UNIT as int) == b,
{
    assert((b - a) * UNIT == UNIT * (b - a)) by (nonlinear_arith);
    vstd::arithmetic::div_mod::lemma_div_multiples_vanish((b - a) as int, UNIT as int);
    if b - a < 0 {
        let m = -((b - a) * UNIT);
        assert(m == (a - b) * UNIT) by (nonlinear_arith)
            requires
                m == -((b - a) * UNIT),
        ;
        assert((m + UNIT - 1) / (UNIT as int) == a - b) by {
            vstd::arithmetic::div_mod::lemma_fundamental_div_mod_converse(m + UNIT - 1, UNIT as int, a - b, UNIT - 1);
        }
    }
}

/// Blending two DMX targets by 0 gives the first, by 1 the second. At any
/// point `t` a slot that is not a colour wheel is `a + (b − a)·t` (rounded
/// down), and a colour-wheel slot takes `a` below half way and `b` from half
/// way.
pub proof fn law_interpolate_endpoints(v: DmxRenderTarget, a: DmxRenderTarget, b: DmxRenderTarget, t: int)
    ensures
        dmx_blended(v@, a@, b@, 0).universe =~= a@.universe,
        dmx_blended(v@, a@, b@, UNIT as int).universe =~= b@.universe,
        dmx_blended(v@, a@, b@, t).universe.len() == UNIVERSE_SIZE,
        forall|i: int|
            0 <= i < UNIVERSE_SIZE ==> #[trigger] dmx_blended(v@, a@, b@, t).universe[i] == if wheel_flags(
                UNIVERSE_SIZE as nat,
                v@.fixtures,
                v@.definitions,
            )[i] {
                if t < UNIT / 2 {
                    a@.universe[i]
                } else {
                    b@.universe[i]
                }
            } else {
                lerp(a@.universe[i] as int, b@.universe[i] as int, t) as i64
            },
{
    lemma_full_universe(&v);
    lemma_full_universe(&a);
    lemma_full_universe(&b);
    assert forall|i: int| 0 <= i < UNIVERSE_SIZE implies dmx_blended(v@, a@, b@, 0).universe[i] == a@.universe[i] by {
        lemma_lerp_ends(a@.universe[i], b@.universe[i]);
    }
    assert forall|i: int| 0 <= i < UNIVERSE_SIZE implies dmx_blended(v@, a@, b@, UNIT as int).universe[i]
        == b@.universe[i] by {
        lemma_lerp_ends(a@.universe[i], b@.universe[i]);
    }
}

/// The same endpoints hold for WLED segments.
pub proof fn law_wled_interpolate_endpoints(v: WledView, a: WledView, b: WledView)
    requires
        a.segments.len() == v.segments.len(),
        b.segments.len() == v.segments.len(),
    ensures
        wled_blended(v, a, b, 0).segments =~= a.segments,
        wled_blended(v, a, b, UNIT as int).segments =~= b.segments,
{
    assert forall|i: int| 0 <= i < v.segments.len() implies wled_blended(v, a, b, 0).segments[i] == a.segments[i] by {
        let (x, y) = (a.segments[i], b.segments[i]);
        lemma_lerp_ends(x.speed, y.speed);
        lemma_lerp_ends(x.brightness, y.brightness);
        match (x.primary_color, y.primary_color) {
            (Some(c), Some(d)) => {
                lemma_lerp_ends(c.red, d.red);
                lemma_lerp_ends(c.green, d.green);
                lemma_lerp_ends(c.blue, d.blue);
            },
            _ => {},
        }
    }
    assert forall|i: int| 0 <= i < v.segments.len() implies wled_blended(v, a, b, UNIT as int).segments[i] == b.segments[i] by {
        let (x, y) = (a.segments[i], b.segments[i]);
        lemma_lerp_ends(x.speed, y.speed);
        lemma_lerp_ends(x.brightness, y.brightness);
        match (x.primary_color, y.primary_color) {
            (Some(c), Some(d)) => {
                lemma_lerp_ends(c.red, d.red);
                lemma_lerp_ends(c.green, d.green);
                lemma_lerp_ends(c.blue, d.blue);
            },
            _ => {},
        }
    }
}

// ---------------------------------------------------------------- order

/// Of two tiles with different priorities, the higher one is drawn last, on
/// top, whichever of the two is listed first.
pub proof fn law_higher_priority_drawn_last(low: TileMap, high: TileMap)
    requires
        low.priority < high.priority,
    ensures
        draw_order(seq![low, high], 2) == seq![0usize, 1usize],
        draw_order(seq![high, low], 2) == seq![1usize, 0usize],
{
    let s1 = seq![low, high];
    let s2 = seq![high, low];
    assert(draw_order(s1, 1) == seq![0usize]) by {
        assert(draw_order(s1, 0) == Seq::<usize>::empty());
    }
    assert(!tile_key_lt(s1[1], s1[0]));
    assert(draw_order(s1, 2) =~= seq![0usize, 1usize]);
    assert(draw_order(s2, 1) == seq![0usize]) by {
        assert(draw_order(s2, 0) == Seq::<usize>::empty());
    }
    assert(tile_key_lt(s2[1], s2[0]));
    assert(insert_sorted(s2, seq![0usize].drop_last(), 1usize) == seq![1usize]);
    assert(draw_order(s2, 2) =~= seq![1usize, 0usize]);
}

/// Two tiles of different priorities on one scene: the result is the lower
/// tile drawn first and the higher one drawn over it, whichever is listed
/// first, so where both drive a fixture the higher tile's blend comes last.
pub proof fn law_higher_priority_composites_on_top<T: RenderTarget>(
    f: Frame,
    v: T::V,
    low: TileMap,
    high: TileMap,
    beat: Option<BeatMetadata>,
    system_t: u64,
)
    requires
        low.priority < high.priority,
        low.tile is Some,
        high.tile is Some,
    ensures
        ({
            let on_top = tile_result::<T>(f, tile_result::<T>(f, v, low.tile->0, beat, system_t), high.tile->0, beat, system_t);
            &&& tiles_result::<T>(f, v, seq![low, high], draw_order(seq![low, high], 2), 2, beat, system_t) == on_top
            &&& tiles_result::<T>(f, v, seq![high, low], draw_order(seq![high, low], 2), 2, beat, system_t) == on_top
        }),
{
    law_higher_priority_drawn_last(low, high);
    let s1 = seq![low, high];
    let s2 = seq![high, low];
    assert(s1[0] == low && s1[1] == high);
    assert(s2[0] == high && s2[1] == low);
    let o1 = seq![0usize, 1usize];
    let o2 = seq![1usize, 0usize];
    assert(o1.len() == 2 && o1[0] == 0usize && o1[1] == 1usize);
    assert(o2.len() == 2 && o2[0] == 1usize && o2[1] == 0usize);
    assert(tiles_result::<T>(f, v, s1, o1, 0, beat, system_t) == v);
    assert(tiles_result::<T>(f, v, s2, o2, 0, beat, system_t) == v);
    assert(tiles_result::<T>(f, v, s1, o1, 1, beat, system_t) == tile_result::<T>(f, v, low.tile->0, beat, system_t));
    assert(tiles_result::<T>(f, v, s2, o2, 1, beat, system_t) == tile_result::<T>(f, v, low.tile->0, beat, system_t));
}

// ---------------------------------------------------------------- random

/// Positions of parity 0 among the first `n`.
pub open spec fn even_count(n: int) -> int {
    (n + 1) / 2
}

/// The windows of a table cover `a_sum·a_var + b_sum·b_var` plus `min` for
/// each window (scaled by `RANDOM_SCALE`), where the sums run over the entries
/// at even and at odd positions: for a full table of even length that is
/// `odd_sum·a_var + N/2·a_min + even_sum·b_var + N/2·b_min` in milliseconds.
pub proof fn law_window_size(s: Seq<u64>, e: RandomEffect)
    ensures
        total_width(s, e) == parity_sum(s, 0) * e.effect_a_variation + parity_sum(s, 1) * e.effect_b_variation
            + (RANDOM_SCALE as int) * (even_count(s.len() as int) * e.effect_a_min + (s.len() as int / 2) * e.effect_b_min),
    decreases s.len(),
{
    if s.len() == 0 {
        assert(total_width(s, e) == 0);
        assert(even_count(0) == 0);
        assert(0 * e.effect_a_variation + 0 * e.effect_b_variation + 4096 * (0 * e.effect_a_min + 0 * e.effect_b_min) == 0) by (nonlinear_arith);
    } else {
        let p = s.drop_last();
        law_window_size(p, e);
        let n = s.last();
        let k = s.len() - 1;
        let av = e.effect_a_variation as int;
        let bv = e.effect_b_variation as int;
        let am = e.effect_a_min as int;
        let bm = e.effect_b_min as int;
        let pa = parity_sum(p, 0);
        let pb = parity_sum(p, 1);
        assert(total_width(s, e) == total_width(p, e) + slot_width(n, k, e));
        assert(parity_sum(s, 0) == pa + if k % 2 == 0 {
            n as int
        } else {
            0
        });
        assert(parity_sum(s, 1) == pb + if k % 2 == 1 {
            n as int
        } else {
            0
        });
        let tw = total_width(p, e);
        let ecp = even_count(p.len() as int);
        let hp = p.len() / 2;
        assert(tw == pa * av + pb * bv + 4096 * (ecp * am + hp * bm));
        if k % 2 == 0 {
            assert(even_count(s.len() as int) == ecp + 1);
            assert(s.len() / 2 == hp);
            assert(slot_width(n, k, e) == n * av + 4096 * am);
            assert(tw + n * av + 4096 * am == (pa + n) * av + pb * bv + 4096 * ((ecp + 1) * am + hp * bm)) by (nonlinear_arith)
                requires
                    tw == pa * av + pb * bv + 4096 * (ecp * am + hp * bm),
            ;
        } else {
            assert(even_count(s.len() as int) == ecp);
            assert(s.len() / 2 == hp + 1);
            assert(slot_width(n, k, e) == n * bv + 4096 * bm);
            assert(tw + n * bv + 4096 * bm == pa * av + (pb + n) * bv + 4096 * (ecp * am + (hp + 1) * bm)) by (nonlinear_arith)
                requires
                    tw == pa * av + pb * bv + 4096 * (ecp * am + hp * bm),
            ;
        }
    }
}

/// For a full table the window length in milliseconds is
/// `(odd_sum·a_var + even_sum·b_var) / RANDOM_SCALE + N/2·a_min + N/2·b_min`,
/// rounded down, where `odd_sum` sums the entries at even positions (the
/// windows of effect a) and `even_sum` those at odd positions.
pub proof fn law_window_of_full_table(s: Seq<u64>, e: RandomEffect)
    requires
        s.len() == RANDOM_TABLE_SIZE,
    ensures
        window_of(s, e) == (parity_sum(s, 0) * e.effect_a_variation + parity_sum(s, 1) * e.effect_b_variation)
            / (RANDOM_SCALE as int) + (RANDOM_TABLE_SIZE as int / 2) * e.effect_a_min + (RANDOM_TABLE_SIZE as int / 2)
            * e.effect_b_min,
{
    law_window_size(s, e);
    let x = parity_sum(s, 0) * e.effect_a_variation + parity_sum(s, 1) * e.effect_b_variation;
    let y = 8192 * e.effect_a_min + 8192 * e.effect_b_min;
    assert(even_count(s.len() as int) == 8192);
    assert(total_width(s, e) == x + 4096 * y) by (nonlinear_arith)
        requires
            total_width(s, e) == x + 4096 * (8192 * e.effect_a_min + 8192 * e.effect_b_min),
            y == 8192 * e.effect_a_min + 8192 * e.effect_b_min,
    ;
    vstd::arithmetic::div_mod::lemma_hoist_over_denominator(x, y, 4096);
    assert(y * 4096 == 4096 * y) by (nonlinear_arith);
}

/// The shift that a pair of seeds gives the clock: `P·(P·seed + random_seed)`,
/// in wrapping arithmetic.
pub open spec fn seed_offset(seed: u64, random_seed: u32) -> u64 {
    vstd::wrapping::u64_specs::wrapping_mul(
        LARGE_PRIME,
        vstd::wrapping::u64_specs::wrapping_add(vstd::wrapping::u64_specs::wrapping_mul(LARGE_PRIME, seed), random_seed as u64),
    )
}

/// The seeds only shift the point on the time axis: it is the clock plus an
/// offset that depends on the seeds alone, wrapped, taken modulo the window.
/// Equal clocks and seeds give equal points, so equal choices.
pub proof fn law_seed_shifts_time(system_t: u64, seed: u64, random_seed: u32, window: int)
    requires
        window > 0,
    ensures
        effect_time(system_t, seed, random_seed, window) == vstd::wrapping::u64_specs::wrapping_add(
            system_t,
            seed_offset(seed, random_seed),
        ) as int % window,
        0 <= effect_time(system_t, seed, random_seed, window) < window,
{
}

// ---------------------------------------------------------------- easing

/// Every easing curve starts at 0 and ends at 1.
pub proof fn law_easing_endpoints(e: Easing)
    ensures
        ease(e, 0) == 0,
        ease(e, UNIT as int) == UNIT,
{
    let u = UNIT as int;
    assert(u * u * u / (u * u) == u) by (nonlinear_arith)
        requires
            u == 1_000_000,
    ;
    assert(u * u * (3 * u - 2 * u) == u * u * u) by (nonlinear_arith);
    lemma_cos_values();
}

proof fn lemma_cos_values()
    ensures
        cos_pi(0) == UNIT,
        cos_pi(UNIT as int / 2) == 0,
        cos_pi(UNIT as int) == -UNIT,
{
    let u = UNIT as int;
    assert(cos_pi_quarter(0) == u) by {
        assert(u * (u * u - 4 * 0 * 0) == u * (u * u)) by (nonlinear_arith);
        assert(u * (u * u) / (u * u + 0 * 0) == u) by (nonlinear_arith)
            requires
                u == 1_000_000,
        ;
    }
    assert(cos_pi_quarter(u / 2) == 0) by {
        assert(u * (u * u - 4 * (u / 2) * (u / 2)) == 0) by (nonlinear_arith)
            requires
                u == 1_000_000,
        ;
    }
}

/// The sine curve runs from 0 at 0 through ½ at ½ to 1 at 1.
pub proof fn law_sine_easing_values()
    ensures
        ease(Easing::Sine, 0) == 0,
        ease(Easing::Sine, UNIT as int / 2) == UNIT / 2,
        ease(Easing::Sine, UNIT as int) == UNIT,
{
    lemma_cos_values();
}

proof fn lemma_scaled_in_unit(n: int, d: int)
    requires
        d > 0,
        0 <= n <= UNIT * d,
    ensures
        0 <= floor_div(n, d) <= UNIT,
{
    vstd::arithmetic::div_mod::lemma_div_is_ordered(n, UNIT * d, d);
    vstd::arithmetic::div_mod::lemma_div_multiples_vanish(UNIT as int, d);
    assert(UNIT * d == d * UNIT) by (nonlinear_arith);
    vstd::arithmetic::div_mod::lemma_div_pos_is_pos(n, d);
}

/// On `[0, 1]` every easing curve stays within `[0, 1]`.
pub proof fn law_easing_in_unit(e: Easing, t: int)
    requires
        0 <= t <= UNIT,
    ensures
        0 <= ease(e, t) <= UNIT,
{
    let u = UNIT as int;
    match e {
        Easing::Linear => {},
        Easing::EaseIn => {
            assert(0 <= t * t * t <= u * (u * u)) by (nonlinear_arith)
                requires
                    0 <= t <= u,
            ;
            lemma_scaled_in_unit(t * t * t, u * u);
        },
        Easing::EaseOut => {
            let s = u - t;
            assert(0 <= s * s * s <= u * (u * u)) by (nonlinear_arith)
                requires
                    0 <= s <= u,
            ;
            lemma_scaled_in_unit(s * s * s, u * u);
        },
        Easing::EaseInOut => {
            assert(0 <= t * t * (3 * u - 2 * t) <= u * (u * u)) by (nonlinear_arith)
                requires
                    0 <= t <= u,
            {
                assert(u * (u * u) - t * t * (3 * u - 2 * t) == (u - t) * (u - t) * (u + 2 * t));
                assert((u - t) * (u - t) * (u + 2 * t) >= 0);
            }
            lemma_scaled_in_unit(t * t * (3 * u - 2 * t), u * u);
        },
        Easing::Sine => {
            lemma_cos_pi_bounded(t);
            lemma_scaled_in_unit(u - cos_pi(t), 2);
        },
    }
}

/// Where the clock, the beat and the phase are not negative, every effect's
/// progress lies within `[0, 1]`.
pub proof fn law_progress_in_unit(
    timing: EffectTiming,
    ms_since_start: u64,
    effect_duration_ms: u64,
    beat_t: int,
    index: int,
    count: int,
)
    requires
        beat_t >= 0,
        timing.phase >= 0,
        0 <= index < count,
    ensures
        timing_progress(timing, ms_since_start, effect_duration_ms, beat_t, index, count) matches Some(p) ==> 0 <= p
            <= UNIT,
{
    let u = UNIT as int;
    match base_progress(timing.timing, ms_since_start, effect_duration_ms, beat_t) {
        Some(t0) => {
            assert(t0 >= 0) by {
                match timing.timing {
                    Some(Timing::Absolute { duration_ms }) => {
                        if duration_ms > 0 {
                            vstd::arithmetic::div_mod::lemma_div_pos_is_pos(ms_since_start * u, duration_ms as int);
                        }
                    },
                    Some(Timing::Beat { multiplier }) => {
                        if multiplier > 0 {
                            vstd::arithmetic::div_mod::lemma_div_pos_is_pos(beat_t, multiplier as int);
                        }
                    },
                    Some(Timing::OneShot) => {
                        if effect_duration_ms > 0 {
                            vstd::arithmetic::div_mod::lemma_div_pos_is_pos(ms_since_start * u, effect_duration_ms as int);
                        }
                    },
                    None => {},
                }
            }
            assert(timing.phase * index >= 0) by (nonlinear_arith)
                requires
                    timing.phase >= 0,
                    index >= 0,
            ;
            vstd::arithmetic::div_mod::lemma_div_pos_is_pos(timing.phase * index, count);
            let t1 = fract(t0 + floor_div(timing.phase * index, count));
            assert(0 <= t1 < u);
            let t2 = if timing.mirrored {
                mirror(t1)
            } else {
                t1
            };
            law_easing_in_unit(timing.easing, t2);
        },
        None => {},
    }
}

// ---------------------------------------------------------------- palettes

/// Whether two palette entries both hold a colour.
pub open spec fn both_colored(x: Option<ColorDescription>, y: Option<ColorDescription>) -> bool {
    x is Some && y is Some && x->0.color is Some && y->0.color is Some
}

/// At 0 a palette entry's blend keeps the previous entry's colour and at 1
/// takes the next one's, wherever both sides hold a colour (white missing on
/// one side counts as off there); at any point a colour that one side lacks
/// passes through from the side that holds it.
/// A palette blends entry by entry: primary, secondary, tertiary.
pub proof fn law_palette_endpoints(x: Option<ColorDescription>, y: Option<ColorDescription>)
    ensures
        both_colored(x, y) ==> {
            let c = blend_description(x, y, 0)->0.color->0;
            let xc = x->0.color->0;
            &&& c.red == xc.red && c.green == xc.green && c.blue == xc.blue
            &&& xc.white is Some ==> c.white == xc.white
        },
        both_colored(x, y) ==> {
            let c = blend_description(x, y, UNIT as int)->0.color->0;
            let yc = y->0.color->0;
            &&& c.red == yc.red && c.green == yc.green && c.blue == yc.blue
            &&& yc.white is Some ==> c.white == yc.white
        },
        y is None ==> blend_description(x, y, 0) == x,
        x is None ==> blend_description(x, y, UNIT as int) == y,
        forall|t: int|
            description_color(x) is Some && description_color(y) is None ==> #[trigger] description_color(
                blend_description(x, y, t),
            ) == description_color(x),
        forall|t: int|
            description_color(x) is None && description_color(y) is Some ==> #[trigger] description_color(
                blend_description(x, y, t),
            ) == description_color(y),
        forall|a: PaletteColors, b: PaletteColors, t: int|
            #[trigger] blend_palette_colors(a, b, t) == (PaletteColors {
                primary: blend_description(a.primary, b.primary, t),
                secondary: blend_description(a.secondary, b.secondary, t),
                tertiary: blend_description(a.tertiary, b.tertiary, t),
            }),
{
    if both_colored(x, y) {
        let xc = x->0.color->0;
        let yc = y->0.color->0;
        lemma_lerp_ends(xc.red, yc.red);
        lemma_lerp_ends(xc.green, yc.green);
        lemma_lerp_ends(xc.blue, yc.blue);
        match (xc.white, yc.white) {
            (Some(p), Some(q)) => lemma_lerp_ends(p, q),
            (Some(p), None) => lemma_lerp_ends(p, 0),
            (None, Some(q)) => lemma_lerp_ends(0, q),
            _ => {},
        }
    }
}

} // verus!
