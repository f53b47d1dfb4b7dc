//! The effect engine: static, ramp, strobe, random and sequence effects write
//! fixture states into a render target.

use vstd::prelude::*;

use crate::fixed::{clamp, div_floor, floor_div, UNIT};
use crate::lookup::{find_index, first_index, lemma_first_index_valid};
use crate::model::{PaletteColors, Effect, EffectTiming, FixtureState, OutputTarget, Project, QualifiedFixtureId, RandomEffect, Sequence, SequenceEntry};
use crate::random::{pick_random, random_choice, RandomTable};
use crate::resolve::{get_fixtures, target_fixtures};
use crate::target::RenderTarget;
use crate::timing::{calculate_timing, timing_progress};

verus! {

/// How deep effects may nest (random children, sequence entries) before the
/// deeper ones are left out.
pub const MAX_EFFECT_DEPTH: usize = 8;

/// Sequence positions per beat.
pub const SEQUENCE_BEAT_RESOLUTION: i128 = 7200;

/// What every effect of one frame shares.
pub struct Frame<'a> {
    pub project: &'a Project,
    pub table: &'a RandomTable,
    pub palette: PaletteColors,
    /// Beats since the beat clock's offset, in fixed point.
    pub beat_t: i128,
    pub frame: u32,
}

/// The bound on the beat clock that every frame keeps.
pub open spec fn beat_bound() -> int {
    0x1_0000_0000_0000_0000 * UNIT
}

impl<'a> Frame<'a> {
    /// A drawn random table and a beat clock within bounds.
    pub open spec fn wf(&self) -> bool {
        &&& self.table.wf()
        &&& -beat_bound() <= self.beat_t <= beat_bound()
    }
}

// ---------------------------------------------------------------- spec

/// `state` written for each fixture of `ids`, in order.
pub open spec fn apply_to_all<T: RenderTarget>(
    v: T::V,
    ids: Seq<QualifiedFixtureId>,
    state: FixtureState,
    palette: PaletteColors,
) -> T::V
    decreases ids.len(),
{
    if ids.len() == 0 {
        v
    } else {
        T::applied(apply_to_all::<T>(v, ids.drop_last(), state, palette), ids.last(), state, palette)
    }
}

/// One fixture's step of a ramp: the target blended, by `t`, between itself
/// with the start state and itself with the end state written for `id`.
pub open spec fn ramp_step<T: RenderTarget>(
    v: T::V,
    id: QualifiedFixtureId,
    start: FixtureState,
    end: FixtureState,
    palette: PaletteColors,
    t: int,
) -> T::V {
    T::blended(v, T::applied(v, id, start, palette), T::applied(v, id, end, palette), t)
}

/// A ramp over the first `k` fixtures of `ids`, fixture `i` at phase `i/n`.
pub open spec fn ramp_fold<T: RenderTarget>(
    f: Frame,
    v: T::V,
    ids: Seq<QualifiedFixtureId>,
    k: int,
    timing: EffectTiming,
    start: FixtureState,
    end: FixtureState,
    ms: u64,
    dur: u64,
) -> T::V
    decreases k,
{
    if k <= 0 || k > ids.len() {
        v
    } else {
        let prev = ramp_fold::<T>(f, v, ids, k - 1, timing, start, end, ms, dur);
        match timing_progress(timing, ms, dur, f.beat_t as int, k - 1, ids.len() as int) {
            Some(t) => ramp_step::<T>(prev, ids[k - 1], start, end, f.palette, t),
            None => prev,
        }
    }
}

/// The state a strobe shows at `frame`: `state_a` for the first
/// `state_a_frames` of each period, then `state_b`; nothing for an empty period.
pub open spec fn strobe_state(
    frame: u32,
    state_a: Option<FixtureState>,
    state_b: Option<FixtureState>,
    a_frames: u32,
    b_frames: u32,
) -> Option<FixtureState> {
    let period: int = a_frames + b_frames;
    if period == 0 || period > u32::MAX {
        None
    } else if (frame as int) % period < a_frames {
        state_a
    } else {
        state_b
    }
}

/// The first entry of a layer that is active at `st`: `start_ms < st <= end_ms`.
pub open spec fn entry_at(entries: Seq<SequenceEntry>, st: int) -> Option<int>
    decreases entries.len(),
{
    if entries.len() == 0 {
        None
    } else {
        match entry_at(entries.drop_last(), st) {
            Some(i) => Some(i),
            None => {
                let e = entries.last();
                if e.start_ms < st && st <= e.end_ms {
                    Some(entries.len() - 1)
                } else {
                    None
                }
            },
        }
    }
}

/// The sequence position of progress `t`: `t · 7200 · native_beats`, at
/// least 0 and at most `u64::MAX`.
pub open spec fn sequence_position(t: int, native_beats: u32) -> int {
    clamp(floor_div(t * SEQUENCE_BEAT_RESOLUTION * native_beats, UNIT as int), 0, u64::MAX as int)
}

/// The beat clock of a sequence: beats over its native beats.
pub open spec fn sequence_beat(beat_t: int, native_beats: u32) -> int {
    if native_beats == 0 {
        0
    } else {
        floor_div(beat_t, native_beats as int)
    }
}

/// The fixtures a static or strobe effect writes: only the first of `ids`
/// where the target names single fixtures (`single`), else all of them.
pub open spec fn lead(ids: Seq<QualifiedFixtureId>, single: bool) -> Seq<QualifiedFixtureId> {
    if single && ids.len() > 0 {
        ids.take(1)
    } else {
        ids
    }
}

/// Whether a target names fixtures rather than a group.
pub open spec fn names_fixtures(t: OutputTarget) -> bool {
    t is Fixtures
}

/// An effect written into a target for the fixtures `ids`; where the target
/// names fixtures (`single`), static and strobe states go to the first only,
/// while ramps, random and sequence effects run per fixture over all of them.
pub open spec fn effect_result<T: RenderTarget>(
    f: Frame,
    v: T::V,
    ids: Seq<QualifiedFixtureId>,
    single: bool,
    system_t: u64,
    ms: u64,
    dur: u64,
    effect: Effect,
    depth: nat,
) -> T::V
    decreases depth, 2nat, 0nat,
{
    match effect {
        Effect::Static { state } => match state {
            Some(s) => apply_to_all::<T>(v, lead(ids, single), s, f.palette),
            None => v,
        },
        Effect::Ramp { state_start, state_end, timing_mode } => match (state_start, state_end, timing_mode) {
            (Some(s), Some(e), Some(tm)) => ramp_fold::<T>(f, v, ids, ids.len() as int, tm, s, e, ms, dur),
            _ => v,
        },
        Effect::Strobe { state_a, state_b, state_a_frames, state_b_frames } => match strobe_state(
            f.frame,
            state_a,
            state_b,
            state_a_frames,
            state_b_frames,
        ) {
            Some(s) => apply_to_all::<T>(v, lead(ids, single), s, f.palette),
            None => v,
        },
        Effect::Random(re) => if depth == 0 {
            v
        } else if re.treat_fixtures_individually {
            random_fold::<T>(f, v, ids, ids.len() as int, system_t, re, depth)
        } else {
            random_once::<T>(f, v, ids, single, system_t, 0, re, depth)
        },
        Effect::Sequence { sequence_id, timing_mode } => if depth == 0 || sequence_id == 0 {
            v
        } else {
            match (first_index(f.project.sequences@, sequence_id), timing_mode) {
                (Some(si), Some(tm)) => sequence_fold::<T>(
                    f,
                    v,
                    ids,
                    ids.len() as int,
                    f.project.sequences@[si],
                    tm,
                    ms,
                    dur,
                    depth,
                ),
                _ => v,
            }
        },
    }
}

/// The child of a random effect chosen for `seed`, run for `ids`.
pub open spec fn random_once<T: RenderTarget>(
    f: Frame,
    v: T::V,
    ids: Seq<QualifiedFixtureId>,
    single: bool,
    system_t: u64,
    seed: u64,
    re: RandomEffect,
    depth: nat,
) -> T::V
    decreases depth, 1nat, 0nat,
{
    if depth == 0 {
        v
    } else {
        match random_choice(f.table.numbers@, re, system_t, seed) {
            Some(c) => {
                let child = if c.use_b {
                    re.effect_b
                } else {
                    re.effect_a
                };
                match child {
                    Some(e) => effect_result::<T>(
                        f,
                        v,
                        ids,
                        single,
                        system_t,
                        c.sub_effect_t,
                        u32::MAX as u64,
                        *e,
                        (depth - 1) as nat,
                    ),
                    None => v,
                }
            },
            None => v,
        }
    }
}

/// A random effect over the first `k` fixtures of `ids`, each fixture seeded
/// by its position.
pub open spec fn random_fold<T: RenderTarget>(
    f: Frame,
    v: T::V,
    ids: Seq<QualifiedFixtureId>,
    k: int,
    system_t: u64,
    re: RandomEffect,
    depth: nat,
) -> T::V
    decreases depth, 1nat, k,
{
    if k <= 0 || k > ids.len() {
        v
    } else {
        let prev = random_fold::<T>(f, v, ids, k - 1, system_t, re, depth);
        random_once::<T>(f, prev, seq![ids[k - 1]], true, system_t, (k - 1) as u64, re, depth)
    }
}

/// The active entries of the first `j` layers of a sequence at position `st`,
/// run for fixture `id`.
pub open spec fn layers_fold<T: RenderTarget>(
    f: Frame,
    v: T::V,
    id: QualifiedFixtureId,
    seq: Sequence,
    j: int,
    st: int,
    depth: nat,
) -> T::V
    decreases depth, 0nat, j,
{
    if j <= 0 || j > seq.layers@.len() || depth == 0 {
        v
    } else {
        let prev = layers_fold::<T>(f, v, id, seq, j - 1, st, depth);
        let entries = seq.layers@[j - 1].effects@;
        match entry_at(entries, st) {
            Some(ei) => match entries[ei].effect {
                Some(e) => effect_result::<T>(
                    f,
                    prev,
                    seq![id],
                    true,
                    st as u64,
                    (st - entries[ei].start_ms) as u64,
                    (entries[ei].end_ms - entries[ei].start_ms) as u64,
                    e,
                    (depth - 1) as nat,
                ),
                None => prev,
            },
            None => prev,
        }
    }
}

/// A sequence over the first `k` fixtures of `ids`, fixture `i` at phase `i/n`.
pub open spec fn sequence_fold<T: RenderTarget>(
    f: Frame,
    v: T::V,
    ids: Seq<QualifiedFixtureId>,
    k: int,
    seq: Sequence,
    timing: EffectTiming,
    ms: u64,
    dur: u64,
    depth: nat,
) -> T::V
    decreases depth, 1nat, k,
{
    if k <= 0 || k > ids.len() {
        v
    } else {
        let prev = sequence_fold::<T>(f, v, ids, k - 1, seq, timing, ms, dur, depth);
        match timing_progress(timing, ms, dur, sequence_beat(f.beat_t as int, seq.native_beats), k - 1, ids.len() as int) {
            Some(t) => layers_fold::<T>(
                f,
                prev,
                ids[k - 1],
                seq,
                seq.layers@.len() as int,
                sequence_position(t, seq.native_beats),
                depth,
            ),
            None => prev,
        }
    }
}

// ---------------------------------------------------------------- exec

/// Writes `state` for each fixture of `ids`, in order.
pub fn apply_state_to_all<T: RenderTarget>(
    target: &mut T,
    ids: &Vec<QualifiedFixtureId>,
    state: &FixtureState,
    palette: &PaletteColors,
)
    ensures
        final(target)@ == apply_to_all::<T>(old(target)@, ids@, *state, *palette),
{
    let ghost start = target@;
    let mut i: usize = 0;
    while i < ids.len()
        invariant
            0 <= i <= ids.len(),
            target@ == apply_to_all::<T>(start, ids@.take(i as int), *state, *palette),
        decreases ids.len() - i,
    {
        assert(ids@.take(i as int + 1).drop_last() =~= ids@.take(i as int));
        target.apply_state(&ids[i], state, palette);
        i = i + 1;
    }
    assert(ids@.take(i as int) =~= ids@);
}

/// The fixtures a static or strobe effect writes.
pub fn lead_ids(ids: &Vec<QualifiedFixtureId>, single: bool) -> (r: Vec<QualifiedFixtureId>)
    ensures
        r@ == lead(ids@, single),
{
    let n: usize = if single && ids.len() > 0 {
        1
    } else {
        ids.len()
    };
    let mut out: Vec<QualifiedFixtureId> = Vec::new();
    let mut i: usize = 0;
    while i < n
        invariant
            0 <= i <= n <= ids.len(),
            out@ =~= ids@.take(i as int),
        decreases n - i,
    {
        out.push(ids[i]);
        i = i + 1;
    }
    assert(ids@.take(ids.len() as int) =~= ids@);
    out
}

/// Writes `state` for the fixtures that `output_target` stands for: the
/// first listed fixture of the active patch where it names fixtures, every
/// member of a group.
pub fn apply_state<T: RenderTarget>(
    project: &Project,
    render_target: &mut T,
    output_target: &OutputTarget,
    state: &FixtureState,
    color_palette: &PaletteColors,
)
    ensures
        final(render_target)@ == apply_to_all::<T>(
            old(render_target)@,
            lead(target_fixtures(*project, *output_target), names_fixtures(*output_target)),
            *state,
            *color_palette,
        ),
{
    let ids = get_fixtures(project, output_target);
    let single = matches!(output_target, OutputTarget::Fixtures(_));
    let firsts = lead_ids(&ids, single);
    apply_state_to_all(render_target, &firsts, state, color_palette);
}

/// Runs a ramp over `ids`: fixture `i` of `n` is blended between the two
/// states by its own progress, at phase `i/n`.
pub fn apply_ramp_effect<T: RenderTarget>(
    ctx: &Frame,
    render_target: &mut T,
    ids: &Vec<QualifiedFixtureId>,
    ms_since_start: u64,
    effect_duration_ms: u64,
    state_start: &FixtureState,
    state_end: &FixtureState,
    timing: &EffectTiming,
)
    requires
        ctx.wf(),
    ensures
        final(render_target)@ == ramp_fold::<T>(
            *ctx,
            old(render_target)@,
            ids@,
            ids@.len() as int,
            *timing,
            *state_start,
            *state_end,
            ms_since_start,
            effect_duration_ms,
        ),
{
    let ghost v0 = render_target@;
    let n = ids.len();
    let mut i: usize = 0;
    while i < n
        invariant
            ctx.wf(),
            0 <= i <= n,
            n == ids@.len(),
            render_target@ == ramp_fold::<T>(*ctx, v0, ids@, i as int, *timing, *state_start, *state_end, ms_since_start, effect_duration_ms),
        decreases n - i,
    {
        match calculate_timing(timing, ms_since_start, effect_duration_ms, ctx.beat_t, i, n) {
            Some(t) => {
                let mut start = render_target.duplicate();
                let mut end = render_target.duplicate();
                start.apply_state(&ids[i], state_start, &ctx.palette);
                end.apply_state(&ids[i], state_end, &ctx.palette);
                render_target.interpolate(&start, &end, t);
            },
            None => {},
        }
        i = i + 1;
    }
}

/// Writes the strobe's current state for each fixture of `ids`.
pub fn apply_strobe_effect<T: RenderTarget>(
    ctx: &Frame,
    render_target: &mut T,
    ids: &Vec<QualifiedFixtureId>,
    state_a: Option<FixtureState>,
    state_b: Option<FixtureState>,
    state_a_frames: u32,
    state_b_frames: u32,
)
    ensures
        final(render_target)@ == match strobe_state(ctx.frame, state_a, state_b, state_a_frames, state_b_frames) {
            Some(s) => apply_to_all::<T>(old(render_target)@, ids@, s, ctx.palette),
            None => old(render_target)@,
        },
{
    let period: u64 = state_a_frames as u64 + state_b_frames as u64;
    if period == 0 || period > 0xffff_ffff {
        return ;
    }
    let chosen = if (ctx.frame as u64) % period < state_a_frames as u64 {
        state_a
    } else {
        state_b
    };
    match chosen {
        Some(s) => apply_state_to_all(render_target, ids, &s, &ctx.palette),
        None => {},
    }
}

fn apply_random_once<T: RenderTarget>(
    ctx: &Frame,
    render_target: &mut T,
    ids: &Vec<QualifiedFixtureId>,
    single: bool,
    system_t: u64,
    seed: u64,
    random_effect: &RandomEffect,
    depth: usize,
)
    requires
        ctx.wf(),
    ensures
        final(render_target)@ == random_once::<T>(*ctx, old(render_target)@, ids@, single, system_t, seed, *random_effect, depth as nat),
    decreases depth, 1nat,
{
    if depth == 0 {
        return ;
    }
    match pick_random(ctx.table, random_effect, system_t, seed) {
        Some(c) => {
            let child = if c.use_b {
                &random_effect.effect_b
            } else {
                &random_effect.effect_a
            };
            match child {
                Some(e) => apply_effect_to(
                    ctx,
                    render_target,
                    ids,
                    single,
                    system_t,
                    c.sub_effect_t,
                    0xffff_ffff,
                    e,
                    depth - 1,
                ),
                None => {},
            }
        },
        None => {},
    }
}

/// Runs a random effect over `ids`: once for them all with seed 0, or once
/// per fixture seeded by its position.
pub fn apply_random_effect<T: RenderTarget>(
    ctx: &Frame,
    render_target: &mut T,
    ids: &Vec<QualifiedFixtureId>,
    single: bool,
    system_t: u64,
    random_effect: &RandomEffect,
    depth: usize,
)
    requires
        ctx.wf(),
        depth > 0,
    ensures
        final(render_target)@ == if random_effect.treat_fixtures_individually {
            random_fold::<T>(*ctx, old(render_target)@, ids@, ids@.len() as int, system_t, *random_effect, depth as nat)
        } else {
            random_once::<T>(*ctx, old(render_target)@, ids@, single, system_t, 0, *random_effect, depth as nat)
        },
    decreases depth, 2nat,
{
    if !random_effect.treat_fixtures_individually {
        apply_random_once(ctx, render_target, ids, single, system_t, 0, random_effect, depth);
        return ;
    }
    let ghost v0 = render_target@;
    let n = ids.len();
    let mut i: usize = 0;
    while i < n
        invariant
            ctx.wf(),
            0 <= i <= n,
            n == ids@.len(),
            render_target@ == random_fold::<T>(*ctx, v0, ids@, i as int, system_t, *random_effect, depth as nat),
        decreases n - i,
    {
        let one = vec![ids[i]];
        assert(one@ =~= seq![ids@[i as int]]);
        apply_random_once(ctx, render_target, &one, true, system_t, i as u64, random_effect, depth);
        i = i + 1;
    }
}

fn find_entry(entries: &Vec<SequenceEntry>, st: u64) -> (r: Option<usize>)
    ensures
        r matches Some(i) ==> i < entries@.len() && entry_at(entries@, st as int) == Some(i as int),
        r matches Some(i) ==> entries@[i as int].start_ms < st <= entries@[i as int].end_ms,
        r is None ==> entry_at(entries@, st as int) is None,
{
    let mut i: usize = 0;
    while i < entries.len()
        invariant
            0 <= i <= entries.len(),
            entry_at(entries@.take(i as int), st as int) is None,
        decreases entries.len() - i,
    {
        assert(entries@.take(i as int + 1).drop_last() =~= entries@.take(i as int));
        if (entries[i].start_ms as u64) < st && st <= entries[i].end_ms as u64 {
            proof {
                lemma_entry_at_prefix(entries@, i as int + 1, st as int);
            }
            return Some(i);
        }
        i = i + 1;
    }
    assert(entries@.take(i as int) =~= entries@);
    None
}

proof fn lemma_entry_at_prefix(s: Seq<SequenceEntry>, n: int, st: int)
    requires
        0 <= n <= s.len(),
        entry_at(s.take(n), st) is Some,
    ensures
        entry_at(s, st) == entry_at(s.take(n), st),
    decreases s.len() - n,
{
    if n < s.len() {
        assert(s.take(n + 1).drop_last() =~= s.take(n));
        lemma_entry_at_prefix(s, n + 1, st);
    } else {
        assert(s.take(n) =~= s);
    }
}

fn apply_layers<T: RenderTarget>(
    ctx: &Frame,
    render_target: &mut T,
    id: QualifiedFixtureId,
    sequence: &Sequence,
    st: u64,
    depth: usize,
)
    requires
        ctx.wf(),
    ensures
        final(render_target)@ == layers_fold::<T>(*ctx, old(render_target)@, id, *sequence, sequence.layers@.len() as int, st as int, depth as nat),
    decreases depth, 1nat,
{
    if depth == 0 {
        return ;
    }
    let ghost v0 = render_target@;
    let layers = &sequence.layers;
    let mut j: usize = 0;
    while j < layers.len()
        invariant
            ctx.wf(),
            depth > 0,
            0 <= j <= layers.len(),
            layers@ == sequence.layers@,
            render_target@ == layers_fold::<T>(*ctx, v0, id, *sequence, j as int, st as int, depth as nat),
        decreases layers.len() - j,
    {
        let entries = &layers[j].effects;
        match find_entry(entries, st) {
            Some(ei) => {
                let entry = &entries[ei];
                match &entry.effect {
                    Some(e) => {
                        let one = vec![id];
                        assert(one@ =~= seq![id]);
                        apply_effect_to(
                            ctx,
                            render_target,
                            &one,
                            true,
                            st,
                            st - entry.start_ms as u64,
                            (entry.end_ms - entry.start_ms) as u64,
                            e,
                            depth - 1,
                        );
                    },
                    None => {},
                }
            },
            None => {},
        }
        j = j + 1;
    }
}

fn sequence_position_of(t: i64, native_beats: u32) -> (r: u64)
    ensures
        r == sequence_position(t as int, native_beats),
{
    assert(-0x8000_0000_0000_0000 * 7200 * 0xffff_ffff <= t * 7200 * native_beats <= 0x8000_0000_0000_0000 * 7200 * 0xffff_ffff) by (nonlinear_arith)
        requires
            -0x8000_0000_0000_0000 <= t <= 0x8000_0000_0000_0000,
            0 <= native_beats <= 0xffff_ffff,
    ;
    let p: i128 = t as i128 * 7200 * native_beats as i128;
    let q = div_floor(p, 1_000_000);
    if q < 0 {
        0
    } else if q > 0xffff_ffff_ffff_ffff {
        0xffff_ffff_ffff_ffff
    } else {
        q as u64
    }
}

/// Runs a sequence over `ids`: each fixture's progress picks a position, and
/// in each layer the entry active there runs for that fixture.
pub fn apply_sequence_effect<T: RenderTarget>(
    ctx: &Frame,
    render_target: &mut T,
    ids: &Vec<QualifiedFixtureId>,
    ms_since_start: u64,
    effect_duration_ms: u64,
    sequence: &Sequence,
    timing: &EffectTiming,
    depth: usize,
)
    requires
        ctx.wf(),
        depth > 0,
    ensures
        final(render_target)@ == sequence_fold::<T>(
            *ctx,
            old(render_target)@,
            ids@,
            ids@.len() as int,
            *sequence,
            *timing,
            ms_since_start,
            effect_duration_ms,
            depth as nat,
        ),
    decreases depth, 2nat,
{
    let nb = sequence.native_beats;
    let beat: i128 = if nb == 0 {
        0
    } else {
        div_floor(ctx.beat_t, nb as i128)
    };
    proof {
        if nb != 0 {
            crate::timing::lemma_floor_div_bounded(ctx.beat_t as int, nb as int, beat_bound());
        }
    }
    assert(beat == sequence_beat(ctx.beat_t as int, nb));
    let ghost v0 = render_target@;
    let n = ids.len();
    let mut i: usize = 0;
    while i < n
        invariant
            ctx.wf(),
            depth > 0,
            0 <= i <= n,
            n == ids@.len(),
            beat == sequence_beat(ctx.beat_t as int, nb),
            nb == sequence.native_beats,
            -beat_bound() <= beat <= beat_bound(),
            render_target@ == sequence_fold::<T>(*ctx, v0, ids@, i as int, *sequence, *timing, ms_since_start, effect_duration_ms, depth as nat),
        decreases n - i,
    {
        match calculate_timing(timing, ms_since_start, effect_duration_ms, beat, i, n) {
            Some(t) => {
                let st = sequence_position_of(t, nb);
                apply_layers(ctx, render_target, ids[i], sequence, st, depth);
            },
            None => {},
        }
        i = i + 1;
    }
}

/// Runs `effect` for the fixtures `ids` (see `effect_result` for `single`);
/// effects nested deeper than `depth` are left out.
pub fn apply_effect_to<T: RenderTarget>(
    ctx: &Frame,
    render_target: &mut T,
    ids: &Vec<QualifiedFixtureId>,
    single: bool,
    system_t: u64,
    ms_since_start: u64,
    effect_duration_ms: u64,
    effect: &Effect,
    depth: usize,
)
    requires
        ctx.wf(),
    ensures
        final(render_target)@ == effect_result::<T>(
            *ctx,
            old(render_target)@,
            ids@,
            single,
            system_t,
            ms_since_start,
            effect_duration_ms,
            *effect,
            depth as nat,
        ),
    decreases depth, 3nat,
{
    match effect {
        Effect::Static { state } => match state {
            Some(s) => {
                let firsts = lead_ids(ids, single);
                apply_state_to_all(render_target, &firsts, s, &ctx.palette);
            },
            None => {},
        },
        Effect::Ramp { state_start, state_end, timing_mode } => match (state_start, state_end, timing_mode) {
            (Some(s), Some(e), Some(tm)) => apply_ramp_effect(
                ctx,
                render_target,
                ids,
                ms_since_start,
                effect_duration_ms,
                s,
                e,
                tm,
            ),
            _ => {},
        },
        Effect::Strobe { state_a, state_b, state_a_frames, state_b_frames } => apply_strobe_effect(
            ctx,
            render_target,
            &lead_ids(ids, single),
            *state_a,
            *state_b,
            *state_a_frames,
            *state_b_frames,
        ),
        Effect::Random(re) => {
            if depth > 0 {
                apply_random_effect(ctx, render_target, ids, single, system_t, re, depth);
            }
        },
        Effect::Sequence { sequence_id, timing_mode } => {
            if depth == 0 || *sequence_id == 0 {
                return ;
            }
            let sequences = &ctx.project.sequences;
            proof {
                lemma_first_index_valid(sequences@, *sequence_id);
            }
            match (find_index(sequences, *sequence_id), timing_mode) {
                (Some(si), Some(tm)) => apply_sequence_effect(
                    ctx,
                    render_target,
                    ids,
                    ms_since_start,
                    effect_duration_ms,
                    &sequences[si],
                    tm,
                    depth,
                ),
                _ => {},
            }
        },
    }
}

/// Runs `effect` for the fixtures that `output_target` stands for: a static
/// or strobe state goes to the first listed fixture of the active patch where
/// the target names fixtures, ramps, random and sequence effects run over
/// every one of them; a group gives all its members to every effect.
/// Effects nested more than `MAX_EFFECT_DEPTH` deep (random children,
/// sequence entries, each a level) are left out, so that a sequence that
/// reaches itself ends.
pub fn apply_effect<T: RenderTarget>(
    ctx: &Frame,
    render_target: &mut T,
    output_target: &OutputTarget,
    system_t: u64,
    ms_since_start: u64,
    effect_duration_ms: u64,
    effect: &Effect,
)
    requires
        ctx.wf(),
    ensures
        final(render_target)@ == effect_result::<T>(
            *ctx,
            old(render_target)@,
            target_fixtures(*ctx.project, *output_target),
            names_fixtures(*output_target),
            system_t,
            ms_since_start,
            effect_duration_ms,
            *effect,
            MAX_EFFECT_DEPTH as nat,
        ),
{
    let ids = get_fixtures(ctx.project, output_target);
    let single = matches!(output_target, OutputTarget::Fixtures(_));
    apply_effect_to(ctx, render_target, &ids, single, system_t, ms_since_start, effect_duration_ms, effect, MAX_EFFECT_DEPTH);
}

} // verus!
