//! How strongly a tile shows at a given moment, and how far its one-shot
//! effect has run.

use vstd::prelude::*;

use crate::fixed::{clamp, floor_div, UNIT};
use crate::lookup::{find_index, first_index, lemma_first_index_valid, Keyed};
use crate::model::{BeatMetadata, Duration, Project, Scene, Tile, TileMap, TimingDetails, Transition};

verus! {

/// A duration in milliseconds: beats go through the beat length (saturating at
/// `u64::MAX`), and count as nothing without a beat clock.
pub open spec fn duration_ms(d: Duration, beat: Option<BeatMetadata>) -> int {
    match d {
        Duration::Ms(ms) => ms as int,
        Duration::Beat(b) => match beat {
            Some(bm) => clamp(floor_div(b * bm.length_ms, UNIT as int), 0, u64::MAX as int),
            None => 0,
        },
    }
}

/// Milliseconds since `t0`, or 0 before it.
pub open spec fn elapsed(system_t: u64, t0: u64) -> int {
    if system_t >= t0 {
        system_t - t0
    } else {
        0
    }
}

/// The strength of a tile at `system_t`, in fixed point:
/// - a fixed strength is itself;
/// - a fade-in of a one-shot tile is full while its duration runs, then 0;
/// - a fade-in of a looping tile ramps up over its fade-in (at once without one);
/// - a fade-out of a looping tile ramps down over its fade-out (at once without one);
/// - anything else is 0.
pub open spec fn tile_amount(
    transition: Option<Transition>,
    timing: Option<TimingDetails>,
    beat: Option<BeatMetadata>,
    system_t: u64,
) -> int {
    match transition {
        Some(Transition::AbsoluteStrength(a)) => a as int,
        Some(Transition::StartFadeInMs(t0)) => match timing {
            Some(TimingDetails::OneShot { duration }) => if elapsed(system_t, t0) <= duration_ms(duration, beat) {
                UNIT as int
            } else {
                0
            },
            Some(TimingDetails::Loop { fade_in, fade_out }) => {
                let d = match fade_in {
                    Some(d) => duration_ms(d, beat),
                    None => 0,
                };
                if d <= 0 {
                    UNIT as int
                } else {
                    clamp(floor_div(elapsed(system_t, t0) * UNIT, d), 0, UNIT as int)
                }
            },
            None => 0,
        },
        Some(Transition::StartFadeOutMs(t0)) => match timing {
            Some(TimingDetails::Loop { fade_in, fade_out }) => {
                let d = match fade_out {
                    Some(d) => duration_ms(d, beat),
                    None => 0,
                };
                if d <= 0 {
                    0
                } else {
                    clamp(UNIT - floor_div(elapsed(system_t, t0) * UNIT, d), 0, UNIT as int)
                }
            },
            _ => 0,
        },
        None => 0,
    }
}

/// How far the effect of a one-shot tile that is fading in has run, in fixed
/// point within `[0, 1]`; `None` for any other tile.
pub open spec fn tile_progress(
    transition: Option<Transition>,
    timing: Option<TimingDetails>,
    beat: Option<BeatMetadata>,
    system_t: u64,
) -> Option<int> {
    match (transition, timing) {
        (Some(Transition::StartFadeInMs(t0)), Some(TimingDetails::OneShot { duration })) => {
            let d = duration_ms(duration, beat);
            Some(
                if d <= 0 {
                    UNIT as int
                } else {
                    clamp(floor_div(elapsed(system_t, t0) * UNIT, d), 0, UNIT as int)
                },
            )
        },
        _ => None,
    }
}

/// A duration in milliseconds.
pub fn duration_to_ms(d: Duration, beat: Option<BeatMetadata>) -> (r: u64)
    ensures
        r == duration_ms(d, beat),
{
    match d {
        Duration::Ms(ms) => ms as u64,
        Duration::Beat(b) => match beat {
            Some(bm) => {
                assert(0 <= b * bm.length_ms <= 0xffff_ffff_ffff_ffff * 0xffff_ffff_ffff_ffff) by (nonlinear_arith)
                    requires
                        b <= 0xffff_ffff_ffff_ffff,
                        bm.length_ms <= 0xffff_ffff_ffff_ffff,
                ;
                let p: u128 = b as u128 * bm.length_ms as u128;
                let q: u128 = p / 1_000_000;
                if q > 0xffff_ffff_ffff_ffff {
                    0xffff_ffff_ffff_ffff
                } else {
                    q as u64
                }
            },
            None => 0,
        },
    }
}

/// The length of a one-shot tile in milliseconds; 0 for any other tile.
pub fn get_tile_duration_ms(tile: &Tile, beat: Option<BeatMetadata>) -> (r: u64)
    ensures
        r == match tile.timing_details {
            Some(TimingDetails::OneShot { duration }) => duration_ms(duration, beat),
            _ => 0,
        },
{
    match tile.timing_details {
        Some(TimingDetails::OneShot { duration }) => duration_to_ms(duration, beat),
        _ => 0,
    }
}

fn since(system_t: u64, t0: u64) -> (r: u64)
    ensures
        r == elapsed(system_t, t0),
{
    if system_t >= t0 {
        system_t - t0
    } else {
        0
    }
}

/// `clamp(e·UNIT / d, 0, UNIT)` for a positive `d`.
fn clamped_ratio(e: u64, d: u64) -> (r: i64)
    requires
        d > 0,
    ensures
        r == clamp(floor_div(e * UNIT, d as int), 0, UNIT as int),
{
    let q: u128 = e as u128 * 1_000_000 / d as u128;
    assert(q == floor_div(e * UNIT, d as int));
    if q > 1_000_000 {
        1_000_000
    } else {
        q as i64
    }
}

/// The strength of a tile at `system_t`, in fixed point.
pub fn tile_active_amount(tile: &Tile, beat: Option<BeatMetadata>, system_t: u64) -> (r: i64)
    ensures
        r == tile_amount(tile.transition, tile.timing_details, beat, system_t),
{
    match tile.transition {
        Some(Transition::AbsoluteStrength(a)) => a,
        Some(Transition::StartFadeInMs(t0)) => match tile.timing_details {
            Some(TimingDetails::OneShot { duration }) => if since(system_t, t0) <= duration_to_ms(duration, beat) {
                1_000_000
            } else {
                0
            },
            Some(TimingDetails::Loop { fade_in, fade_out }) => {
                let d: u64 = match fade_in {
                    Some(d) => duration_to_ms(d, beat),
                    None => 0,
                };
                if d == 0 {
                    1_000_000
                } else {
                    clamped_ratio(since(system_t, t0), d)
                }
            },
            None => 0,
        },
        Some(Transition::StartFadeOutMs(t0)) => match tile.timing_details {
            Some(TimingDetails::Loop { fade_in, fade_out }) => {
                let d: u64 = match fade_out {
                    Some(d) => duration_to_ms(d, beat),
                    None => 0,
                };
                if d == 0 {
                    0
                } else {
                    let e = since(system_t, t0);
                    let q: u128 = e as u128 * 1_000_000 / d as u128;
                    assert(q == floor_div(e * UNIT, d as int));
                    if q >= 1_000_000 {
                        0
                    } else {
                        1_000_000 - q as i64
                    }
                }
            },
            _ => 0,
        },
        None => 0,
    }
}

/// How far the effect of a one-shot tile fading in has run, in fixed point.
pub fn tile_effect_progress(tile: &Tile, beat: Option<BeatMetadata>, system_t: u64) -> (r: Option<i64>)
    ensures
        r matches Some(v) ==> tile_progress(tile.transition, tile.timing_details, beat, system_t) == Some(v as int),
        r is None ==> tile_progress(tile.transition, tile.timing_details, beat, system_t) is None,
{
    match (tile.transition, tile.timing_details) {
        (Some(Transition::StartFadeInMs(t0)), Some(TimingDetails::OneShot { duration })) => {
            let d = duration_to_ms(duration, beat);
            if d == 0 {
                Some(1_000_000)
            } else {
                Some(clamped_ratio(since(system_t, t0), d))
            }
        },
        _ => None,
    }
}

/// The clock a tile's effects run on: since the start of a one-shot tile
/// fading in, over its duration; else the wall clock over one second.
pub open spec fn effect_clock(
    transition: Option<Transition>,
    timing: Option<TimingDetails>,
    beat: Option<BeatMetadata>,
    system_t: u64,
) -> (u64, u64) {
    match (transition, timing) {
        (Some(Transition::StartFadeInMs(t0)), Some(TimingDetails::OneShot { duration })) => (
            elapsed(system_t, t0) as u64,
            duration_ms(duration, beat) as u64,
        ),
        _ => (system_t, 1000),
    }
}

/// The milliseconds since the start of a tile's effects and their length.
pub fn tile_effect_clock(tile: &Tile, beat: Option<BeatMetadata>, system_t: u64) -> (r: (u64, u64))
    ensures
        r == effect_clock(tile.transition, tile.timing_details, beat, system_t),
{
    match (tile.transition, tile.timing_details) {
        (Some(Transition::StartFadeInMs(t0)), Some(TimingDetails::OneShot { duration })) => (
            since(system_t, t0),
            duration_to_ms(duration, beat),
        ),
        _ => (system_t, 1000),
    }
}

impl Keyed for TileMap {
    open spec fn key(&self) -> u64 {
        self.id
    }

    fn get_key(&self) -> (r: u64) {
        self.id
    }
}

/// The strength of tile `tile_id` of the active scene at `t`; 0 where the
/// scene, the tile or its content is missing.
pub open spec fn tile_strength(project: Project, tile_id: u64, t: u64) -> int {
    match first_index(project.scenes@, project.active_scene) {
        Some(si) => match first_index(project.scenes@[si].tile_map@, tile_id) {
            Some(ti) => match project.scenes@[si].tile_map@[ti].tile {
                Some(tile) => tile_amount(tile.transition, tile.timing_details, project.live_beat, t),
                None => 0,
            },
            None => 0,
        },
        None => 0,
    }
}

/// The strength of tile `tile_id` of the active scene at `t`.
pub fn calculate_tile_strength(project: &Project, tile_id: u64, t: u64) -> (r: i64)
    ensures
        r == tile_strength(*project, tile_id, t),
{
    proof {
        lemma_first_index_valid(project.scenes@, project.active_scene);
    }
    let si = match find_index(&project.scenes, project.active_scene) {
        Some(si) => si,
        None => return 0,
    };
    let scene: &Scene = &project.scenes[si];
    proof {
        lemma_first_index_valid(scene.tile_map@, tile_id);
    }
    let ti = match find_index(&scene.tile_map, tile_id) {
        Some(ti) => ti,
        None => return 0,
    };
    match &scene.tile_map[ti].tile {
        Some(tile) => tile_active_amount(tile, project.live_beat, t),
        None => 0,
    }
}

} // verus!
