//! The DMX render target: a universe of 512 levels, written through the
//! channel layouts of the fixtures of one output.

use vstd::prelude::*;

use crate::fixed::{blend, div_floor, floor_div, lerp, sat, saturate, to_byte, level_to_byte, UNIT};
use crate::lookup::{find_index, first_index, lemma_first_index_valid};
use crate::model::{
    Channel, ChannelKind, ChannelMapping, Color, PaletteColors, DmxFixtureDefinition, FixtureState,
    Mode, PhysicalDmxFixture, QualifiedFixtureId,
};
use crate::palette::resolve_color;
use crate::target::RenderTarget;

verus! {

/// The number of slots of a universe.
pub const UNIVERSE_SIZE: usize = 512;

/// A write of `value` to slot `index`.
pub type Update = (u64, i64);

// ---------------------------------------------------------------- lookup

/// The position of the first mode called `name`.
pub open spec fn first_mode(modes: Seq<Mode>, name: Seq<char>) -> Option<int>
    decreases modes.len(),
{
    if modes.len() == 0 {
        None
    } else {
        match first_mode(modes.drop_last(), name) {
            Some(i) => Some(i),
            None => if modes.last().name@ == name {
                Some(modes.len() - 1)
            } else {
                None
            },
        }
    }
}

proof fn lemma_first_mode_prefix(s: Seq<Mode>, n: int, name: Seq<char>)
    requires
        0 <= n <= s.len(),
        first_mode(s.take(n), name) is Some,
    ensures
        first_mode(s, name) == first_mode(s.take(n), name),
    decreases s.len() - n,
{
    if n < s.len() {
        assert(s.take(n + 1).drop_last() =~= s.take(n));
        lemma_first_mode_prefix(s, n + 1, name);
    } else {
        assert(s.take(n) =~= s);
    }
}

/// The mode a placed fixture runs in: its definition's mode of its mode name.
pub open spec fn fixture_mode(defs: Seq<DmxFixtureDefinition>, f: PhysicalDmxFixture) -> Option<Mode> {
    match first_index(defs, f.fixture_definition_id) {
        Some(d) => match first_mode(defs[d].modes@, f.fixture_mode@) {
            Some(m) => Some(defs[d].modes@[m]),
            None => None,
        },
        None => None,
    }
}

fn find_mode(modes: &Vec<Mode>, name: &String) -> (r: Option<usize>)
    ensures
        r matches Some(i) ==> i < modes.len() && first_mode(modes@, name@) == Some(i as int),
        r is None ==> first_mode(modes@, name@) is None,
{
    let mut i: usize = 0;
    while i < modes.len()
        invariant
            0 <= i <= modes.len(),
            first_mode(modes@.take(i as int), name@) is None,
        decreases modes.len() - i,
    {
        assert(modes@.take(i as int + 1).drop_last() =~= modes@.take(i as int));
        if modes[i].name == *name {
            proof {
                lemma_first_mode_prefix(modes@, i as int + 1, name@);
            }
            return Some(i);
        }
        i = i + 1;
    }
    assert(modes@.take(i as int) =~= modes@);
    None
}

/// The mode that fixture `f` runs in, if its definition and mode exist.
pub fn get_fixture_mode<'b>(defs: &'b Vec<DmxFixtureDefinition>, f: &PhysicalDmxFixture) -> (r: Option<&'b Mode>)
    ensures
        r matches Some(m) ==> fixture_mode(defs@, *f) == Some(*m),
        r is None ==> fixture_mode(defs@, *f) is None,
{
    proof {
        lemma_first_index_valid(defs@, f.fixture_definition_id);
    }
    match find_index(defs, f.fixture_definition_id) {
        Some(d) => match find_mode(&defs[d].modes, &f.fixture_mode) {
            Some(m) => Some(&defs[d].modes[m]),
            None => None,
        },
        None => None,
    }
}

// ---------------------------------------------------------------- colour

/// Whether a layout has a white channel.
pub open spec fn has_white(chans: Seq<Channel>) -> bool {
    exists|i: int| 0 <= i < chans.len() && chans[i].kind == ChannelKind::White
}

/// The red, green, blue and white levels written for a colour: as given where
/// the layout has a white channel, else white folded into the other three.
pub open spec fn folded_color(c: Color, with_white: bool) -> (i64, i64, i64, i64) {
    let w: int = match c.white {
        Some(w) => w as int,
        None => 0,
    };
    if with_white {
        (c.red, c.green, c.blue, w as i64)
    } else {
        (sat(c.red + w) as i64, sat(c.green + w) as i64, sat(c.blue + w) as i64, 0)
    }
}

/// The slot a channel of a fixture at `offset` drives.
pub open spec fn slot(offset: u32, c: Channel) -> u64 {
    (c.index + offset) as u64
}

/// The colour writes of a layout, in channel order.
pub open spec fn color_updates(offset: u32, chans: Seq<Channel>, rgbw: (i64, i64, i64, i64)) -> Seq<Update>
    decreases chans.len(),
{
    if chans.len() == 0 {
        Seq::empty()
    } else {
        let prev = color_updates(offset, chans.drop_last(), rgbw);
        let c = chans.last();
        match c.kind {
            ChannelKind::Red => prev.push((slot(offset, c), rgbw.0)),
            ChannelKind::Green => prev.push((slot(offset, c), rgbw.1)),
            ChannelKind::Blue => prev.push((slot(offset, c), rgbw.2)),
            ChannelKind::White => prev.push((slot(offset, c), rgbw.3)),
            _ => prev,
        }
    }
}

fn layout_has_white(chans: &Vec<Channel>) -> (r: bool)
    ensures
        r == has_white(chans@),
{
    let mut i: usize = 0;
    while i < chans.len()
        invariant
            0 <= i <= chans.len(),
            forall|j: int| 0 <= j < i ==> chans@[j].kind != ChannelKind::White,
        decreases chans.len() - i,
    {
        if matches!(chans[i].kind, ChannelKind::White) {
            return true;
        }
        i = i + 1;
    }
    false
}

fn add_levels(a: i64, b: i64) -> (r: i64)
    ensures
        r == sat(a + b),
{
    saturate(a as i128 + b as i128)
}


// ---------------------------------------------------------------- amounts

/// A level mapped onto `[min_value, max_value]` of a byte range:
/// `min + v·(max − min)` with `min = min_value/255`, `max = max_value/255`.
pub open spec fn amount_level(min_value: u8, max_value: u8, v: i64) -> i64 {
    sat(floor_div(min_value * UNIT + v * (max_value - min_value), 255)) as i64
}

/// The writes of a level to every channel of `kind` with an amount mapping.
pub open spec fn amount_updates(offset: u32, chans: Seq<Channel>, kind: ChannelKind, v: i64) -> Seq<Update>
    decreases chans.len(),
{
    if chans.len() == 0 {
        Seq::empty()
    } else {
        let prev = amount_updates(offset, chans.drop_last(), kind, v);
        let c = chans.last();
        if c.kind == kind {
            match c.mapping {
                Some(ChannelMapping::Amount { min_value, max_value }) => prev.push(
                    (slot(offset, c), amount_level(min_value, max_value, v)),
                ),
                _ => prev,
            }
        } else {
            prev
        }
    }
}

fn map_amount(min_value: u8, max_value: u8, v: i64) -> (r: i64)
    ensures
        r == amount_level(min_value, max_value, v),
{
    let span: i128 = max_value as i128 - min_value as i128;
    assert(-255 <= span <= 255);
    assert(-255 * 0x8000_0000_0000_0000 <= v * span <= 255 * 0x8000_0000_0000_0000) by (nonlinear_arith)
        requires
            -255 <= span <= 255,
            -0x8000_0000_0000_0000 <= v <= 0x7fff_ffff_ffff_ffff,
    ;
    let prod: i128 = v as i128 * span;
    let base: i128 = min_value as i128 * 1_000_000;
    assert(0 <= base <= 255_000_000);
    let n: i128 = base + prod;
    saturate(div_floor(n, 255))
}


// ---------------------------------------------------------------- angles

/// Degrees mapped linearly, `min_degrees` to 0 and `max_degrees` to full,
/// without clamping; no value where the two bounds are equal.
pub open spec fn angle_level(min_degrees: i32, max_degrees: i32, deg: i64) -> Option<i64> {
    if max_degrees > min_degrees {
        Some(sat(floor_div(deg - min_degrees * UNIT, max_degrees - min_degrees)) as i64)
    } else if max_degrees < min_degrees {
        Some(sat(floor_div(min_degrees * UNIT - deg, min_degrees - max_degrees)) as i64)
    } else {
        None
    }
}

/// The writes of an angle to every channel of `kind` with an angle mapping.
pub open spec fn angle_updates(offset: u32, chans: Seq<Channel>, kind: ChannelKind, deg: i64) -> Seq<Update>
    decreases chans.len(),
{
    if chans.len() == 0 {
        Seq::empty()
    } else {
        let prev = angle_updates(offset, chans.drop_last(), kind, deg);
        let c = chans.last();
        if c.kind == kind {
            match c.mapping {
                Some(ChannelMapping::Angle { min_degrees, max_degrees }) => match angle_level(
                    min_degrees,
                    max_degrees,
                    deg,
                ) {
                    Some(v) => prev.push((slot(offset, c), v)),
                    None => prev,
                },
                _ => prev,
            }
        } else {
            prev
        }
    }
}

fn map_angle(min_degrees: i32, max_degrees: i32, deg: i64) -> (r: Option<i64>)
    ensures
        r == angle_level(min_degrees, max_degrees, deg),
{
    let lo: i128 = min_degrees as i128 * UNIT as i128;
    if max_degrees > min_degrees {
        Some(saturate(div_floor(deg as i128 - lo, max_degrees as i128 - min_degrees as i128)))
    } else if max_degrees < min_degrees {
        Some(saturate(div_floor(lo - deg as i128, min_degrees as i128 - max_degrees as i128)))
    } else {
        None
    }
}


// ---------------------------------------------------------------- a state

/// Writes for an optional amount field.
pub open spec fn opt_amount(offset: u32, chans: Seq<Channel>, kind: ChannelKind, v: Option<i64>) -> Seq<Update> {
    match v {
        Some(v) => amount_updates(offset, chans, kind, v),
        None => Seq::empty(),
    }
}

/// Writes for an optional angle field.
pub open spec fn opt_angle(offset: u32, chans: Seq<Channel>, kind: ChannelKind, v: Option<i64>) -> Seq<Update> {
    match v {
        Some(v) => angle_updates(offset, chans, kind, v),
        None => Seq::empty(),
    }
}

/// Every write that a state makes on a fixture's layout, in order: colour,
/// pan, tilt, dimmer, strobe, width, height, zoom.
pub open spec fn state_updates(offset: u32, chans: Seq<Channel>, state: FixtureState, color: Option<Color>) -> Seq<Update> {
    let colors = match color {
        Some(c) => color_updates(offset, chans, folded_color(c, has_white(chans))),
        None => Seq::empty(),
    };
    colors + opt_angle(offset, chans, ChannelKind::Pan, state.pan) + opt_angle(
        offset,
        chans,
        ChannelKind::Tilt,
        state.tilt,
    ) + opt_amount(offset, chans, ChannelKind::Dimmer, state.dimmer) + opt_amount(
        offset,
        chans,
        ChannelKind::Strobe,
        state.strobe,
    ) + opt_amount(offset, chans, ChannelKind::Width, state.width) + opt_amount(
        offset,
        chans,
        ChannelKind::Height,
        state.height,
    ) + opt_amount(offset, chans, ChannelKind::Zoom, state.zoom)
}

/// A universe after a list of writes, in order; a write past the end is
/// dropped.
pub open spec fn apply_updates(u: Seq<i64>, ups: Seq<Update>) -> Seq<i64>
    decreases ups.len(),
{
    if ups.len() == 0 {
        u
    } else {
        let prev = apply_updates(u, ups.drop_last());
        let w = ups.last();
        if w.0 < prev.len() {
            prev.update(w.0 as int, w.1)
        } else {
            prev
        }
    }
}

/// Writes keep the length of a universe.
pub proof fn lemma_apply_updates_len(u: Seq<i64>, ups: Seq<Update>)
    ensures
        apply_updates(u, ups).len() == u.len(),
    decreases ups.len(),
{
    if ups.len() > 0 {
        lemma_apply_updates_len(u, ups.drop_last());
    }
}

// ---------------------------------------------------------------- wheels

/// Flags set for the colour-wheel channels of one layout.
pub open spec fn mark_channels(flags: Seq<bool>, chans: Seq<Channel>, offset: u32) -> Seq<bool>
    decreases chans.len(),
{
    if chans.len() == 0 {
        flags
    } else {
        let prev = mark_channels(flags, chans.drop_last(), offset);
        let c = chans.last();
        if c.mapping == Some(ChannelMapping::ColorWheel) && slot(offset, c) < prev.len() {
            prev.update(slot(offset, c) as int, true)
        } else {
            prev
        }
    }
}

/// Flags set for the colour-wheel channels of every fixture of a list.
pub open spec fn mark_fixtures(flags: Seq<bool>, fixtures: Seq<PhysicalDmxFixture>, defs: Seq<DmxFixtureDefinition>) -> Seq<bool>
    decreases fixtures.len(),
{
    if fixtures.len() == 0 {
        flags
    } else {
        let prev = mark_fixtures(flags, fixtures.drop_last(), defs);
        let f = fixtures.last();
        match fixture_mode(defs, f) {
            Some(m) => mark_channels(prev, m.channels@, f.channel_offset),
            None => prev,
        }
    }
}

/// Which of `n` slots hold a colour-wheel channel: those are never blended.
pub open spec fn wheel_flags(n: nat, fixtures: Seq<PhysicalDmxFixture>, defs: Seq<DmxFixtureDefinition>) -> Seq<bool> {
    mark_fixtures(Seq::new(n, |i: int| false), fixtures, defs)
}

proof fn lemma_mark_channels_len(flags: Seq<bool>, chans: Seq<Channel>, offset: u32)
    ensures
        mark_channels(flags, chans, offset).len() == flags.len(),
    decreases chans.len(),
{
    if chans.len() > 0 {
        lemma_mark_channels_len(flags, chans.drop_last(), offset);
    }
}

proof fn lemma_mark_fixtures_len(flags: Seq<bool>, fixtures: Seq<PhysicalDmxFixture>, defs: Seq<DmxFixtureDefinition>)
    ensures
        mark_fixtures(flags, fixtures, defs).len() == flags.len(),
    decreases fixtures.len(),
{
    if fixtures.len() > 0 {
        lemma_mark_fixtures_len(flags, fixtures.drop_last(), defs);
        let f = fixtures.last();
        match fixture_mode(defs, f) {
            Some(m) => lemma_mark_channels_len(
                mark_fixtures(flags, fixtures.drop_last(), defs),
                m.channels@,
                f.channel_offset,
            ),
            None => {},
        }
    }
}

fn mark_wheel_channels(flags: &mut Vec<bool>, chans: &Vec<Channel>, offset: u32)
    ensures
        final(flags)@ == mark_channels(old(flags)@, chans@, offset),
{
    let ghost start = flags@;
    let mut i: usize = 0;
    while i < chans.len()
        invariant
            0 <= i <= chans.len(),
            flags@ == mark_channels(start, chans@.take(i as int), offset),
        decreases chans.len() - i,
    {
        let c = chans[i];
        assert(chans@.take(i as int + 1).drop_last() =~= chans@.take(i as int));
        let s: u64 = c.index as u64 + offset as u64;
        if matches!(c.mapping, Some(ChannelMapping::ColorWheel)) && s < flags.len() as u64 {
            flags.set(s as usize, true);
        }
        i = i + 1;
    }
    assert(chans@.take(i as int) =~= chans@);
}

/// Which of `n` slots hold a colour-wheel channel of a fixture of `fixtures`.
pub fn get_non_interpolated_indices(
    n: usize,
    fixtures: &Vec<PhysicalDmxFixture>,
    defs: &Vec<DmxFixtureDefinition>,
) -> (r: Vec<bool>)
    ensures
        r@ == wheel_flags(n as nat, fixtures@, defs@),
{
    let mut flags: Vec<bool> = Vec::new();
    let mut k: usize = 0;
    while k < n
        invariant
            0 <= k <= n,
            flags@ =~= Seq::new(k as nat, |i: int| false),
        decreases n - k,
    {
        flags.push(false);
        k = k + 1;
    }
    let ghost start = flags@;
    let mut i: usize = 0;
    while i < fixtures.len()
        invariant
            0 <= i <= fixtures.len(),
            start =~= Seq::new(n as nat, |i: int| false),
            flags@ == mark_fixtures(start, fixtures@.take(i as int), defs@),
        decreases fixtures.len() - i,
    {
        assert(fixtures@.take(i as int + 1).drop_last() =~= fixtures@.take(i as int));
        let f = &fixtures[i];
        match get_fixture_mode(defs, f) {
            Some(m) => mark_wheel_channels(&mut flags, &m.channels, f.channel_offset),
            None => {},
        }
        i = i + 1;
    }
    assert(fixtures@.take(i as int) =~= fixtures@);
    flags
}

// ---------------------------------------------------------------- target

/// What a DMX target holds, as values.
pub ghost struct DmxView {
    pub universe: Seq<i64>,
    pub fixtures: Seq<PhysicalDmxFixture>,
    pub definitions: Seq<DmxFixtureDefinition>,
}

/// A universe of levels for one DMX output, with the fixtures of that output
/// and the fixture definitions it reads their layouts from. The colour-wheel
/// slots that a blend must not fade are worked out from those tables once,
/// when the target is made, and kept with it: a copy shares them and a blend
/// allocates nothing.
pub struct DmxRenderTarget<'a> {
    universe: [i64; UNIVERSE_SIZE],
    wheel: [bool; UNIVERSE_SIZE],
    fixtures: &'a Vec<PhysicalDmxFixture>,
    definitions: &'a Vec<DmxFixtureDefinition>,
}

impl<'a> View for DmxRenderTarget<'a> {
    type V = DmxView;

    closed spec fn view(&self) -> DmxView {
        DmxView { universe: self.universe@, fixtures: self.fixtures@, definitions: self.definitions@ }
    }
}

impl<'a> DmxRenderTarget<'a> {
    /// The kept colour-wheel slots are those of the target's tables.
    #[verifier::type_invariant]
    closed spec fn wheel_matches(&self) -> bool {
        self.wheel@ == wheel_flags(UNIVERSE_SIZE as nat, self.fixtures@, self.definitions@)
    }
}

/// Every DMX target holds a full universe.
pub proof fn lemma_full_universe(t: &DmxRenderTarget)
    ensures
        t@.universe.len() == UNIVERSE_SIZE,
{
}

/// The universe after `state` is written for fixture `id`: the fixture's
/// writes where the fixture and its mode are found, else unchanged.
pub open spec fn dmx_applied(v: DmxView, id: QualifiedFixtureId, state: FixtureState, palette: PaletteColors) -> DmxView {
    match first_index(v.fixtures, id.fixture) {
        Some(fi) => match fixture_mode(v.definitions, v.fixtures[fi]) {
            Some(m) => DmxView {
                universe: apply_updates(
                    v.universe,
                    state_updates(v.fixtures[fi].channel_offset, m.channels@, state, resolve_color(state, palette)),
                ),
                ..v
            },
            None => v,
        },
        None => v,
    }
}

/// The level of one slot of a blend: a colour-wheel slot takes `a` below
/// half way and `b` from half way; any other slot is linear.
pub open spec fn blend_slot(wheel: bool, a: i64, b: i64, t: int) -> i64 {
    if wheel {
        if t < UNIT / 2 {
            a
        } else {
            b
        }
    } else {
        lerp(a as int, b as int, t) as i64
    }
}

/// The universe after a blend of `a` and `b`; slots past the end of either
/// stay as they were.
pub open spec fn dmx_blended(v: DmxView, a: DmxView, b: DmxView, t: int) -> DmxView {
    let wheel = wheel_flags(v.universe.len(), v.fixtures, v.definitions);
    DmxView {
        universe: Seq::new(
            v.universe.len(),
            |i: int|
                if i < a.universe.len() && i < b.universe.len() {
                    blend_slot(wheel[i], a.universe[i], b.universe[i], t)
                } else {
                    v.universe[i]
                },
        ),
        ..v
    }
}

impl<'a> DmxRenderTarget<'a> {
    /// The colour writes for `color` on a layout.
    pub fn compute_color_channel_updates(fixture_offset: u32, mode: &Mode, color: Color) -> (r: Vec<Update>)
        ensures
            r@ == color_updates(
                fixture_offset,
                mode.channels@,
                folded_color(color, has_white(mode.channels@)),
            ),
    {
        let w: i64 = match color.white {
            Some(w) => w,
            None => 0,
        };
        let with_white = layout_has_white(&mode.channels);
        let rgbw: (i64, i64, i64, i64) = if with_white {
            (color.red, color.green, color.blue, w)
        } else {
            (add_levels(color.red, w), add_levels(color.green, w), add_levels(color.blue, w), 0)
        };
        assert(rgbw == folded_color(color, has_white(mode.channels@)));
        let chans = &mode.channels;
        let mut out: Vec<Update> = Vec::new();
        let mut i: usize = 0;
        while i < chans.len()
            invariant
                0 <= i <= chans.len(),
                out@ == color_updates(fixture_offset, chans@.take(i as int), rgbw),
            decreases chans.len() - i,
        {
            let c = chans[i];
            assert(chans@.take(i as int + 1).drop_last() =~= chans@.take(i as int));
            let s: u64 = c.index as u64 + fixture_offset as u64;
            match c.kind {
                ChannelKind::Red => out.push((s, rgbw.0)),
                ChannelKind::Green => out.push((s, rgbw.1)),
                ChannelKind::Blue => out.push((s, rgbw.2)),
                ChannelKind::White => out.push((s, rgbw.3)),
                _ => {},
            }
            i = i + 1;
        }
        assert(chans@.take(i as int) =~= chans@);
        out
    }

    /// The writes of level `value` to the channels of `channel_type`.
    pub fn compute_amount_channel_updates(
        fixture_offset: u32,
        mode: &Mode,
        channel_type: ChannelKind,
        value: i64,
    ) -> (r: Vec<Update>)
        ensures
            r@ == amount_updates(fixture_offset, mode.channels@, channel_type, value),
    {
        let chans = &mode.channels;
        let mut out: Vec<Update> = Vec::new();
        let mut i: usize = 0;
        while i < chans.len()
            invariant
                0 <= i <= chans.len(),
                out@ == amount_updates(fixture_offset, chans@.take(i as int), channel_type, value),
            decreases chans.len() - i,
        {
            let c = chans[i];
            assert(chans@.take(i as int + 1).drop_last() =~= chans@.take(i as int));
            if c.kind == channel_type {
                match c.mapping {
                    Some(ChannelMapping::Amount { min_value, max_value }) => {
                        out.push((c.index as u64 + fixture_offset as u64, map_amount(min_value, max_value, value)));
                    },
                    _ => {},
                }
            }
            i = i + 1;
        }
        assert(chans@.take(i as int) =~= chans@);
        out
    }

    /// The writes of angle `degrees` to the channels of `channel_type`.
    pub fn compute_angle_channel_updates(
        fixture_offset: u32,
        mode: &Mode,
        channel_type: ChannelKind,
        degrees: i64,
    ) -> (r: Vec<Update>)
        ensures
            r@ == angle_updates(fixture_offset, mode.channels@, channel_type, degrees),
    {
        let chans = &mode.channels;
        let mut out: Vec<Update> = Vec::new();
        let mut i: usize = 0;
        while i < chans.len()
            invariant
                0 <= i <= chans.len(),
                out@ == angle_updates(fixture_offset, chans@.take(i as int), channel_type, degrees),
            decreases chans.len() - i,
        {
            let c = chans[i];
            assert(chans@.take(i as int + 1).drop_last() =~= chans@.take(i as int));
            if c.kind == channel_type {
                match c.mapping {
                    Some(ChannelMapping::Angle { min_degrees, max_degrees }) => {
                        match map_angle(min_degrees, max_degrees, degrees) {
                            Some(v) => out.push((c.index as u64 + fixture_offset as u64, v)),
                            None => {},
                        }
                    },
                    _ => {},
                }
            }
            i = i + 1;
        }
        assert(chans@.take(i as int) =~= chans@);
        out
    }

    /// A zeroed universe for the fixtures of one output.
    pub fn new(fixtures: &'a Vec<PhysicalDmxFixture>, definitions: &'a Vec<DmxFixtureDefinition>) -> (r: Self)
        ensures
            r@.universe =~= Seq::new(UNIVERSE_SIZE as nat, |i: int| 0i64),
            r@.fixtures == fixtures@,
            r@.definitions == definitions@,
    {
        let universe: [i64; UNIVERSE_SIZE] = [0i64; UNIVERSE_SIZE];
        assert(universe@ =~= Seq::new(UNIVERSE_SIZE as nat, |i: int| 0i64));
        let flags = get_non_interpolated_indices(UNIVERSE_SIZE, fixtures, definitions);
        proof {
            lemma_mark_fixtures_len(Seq::new(UNIVERSE_SIZE as nat, |i: int| false), fixtures@, definitions@);
        }
        let mut wheel: [bool; UNIVERSE_SIZE] = [false; UNIVERSE_SIZE];
        let mut i: usize = 0;
        while i < UNIVERSE_SIZE
            invariant
                0 <= i <= UNIVERSE_SIZE,
                flags@.len() == UNIVERSE_SIZE,
                wheel@.len() == UNIVERSE_SIZE,
                forall|j: int| 0 <= j < i ==> wheel@[j] == flags@[j],
            decreases UNIVERSE_SIZE - i,
        {
            wheel[i] = flags[i];
            i = i + 1;
        }
        assert(wheel@ =~= flags@);
        DmxRenderTarget { universe, wheel, fixtures, definitions }
    }

    /// The levels of the universe.
    pub fn levels(&self) -> (r: &[i64; UNIVERSE_SIZE])
        ensures
            r@ == self@.universe,
    {
        &self.universe
    }

    /// The universe as bytes: each level `v` becomes `clamp(v·255, 0, 255)`.
    pub fn get_universe(&self) -> (r: [u8; UNIVERSE_SIZE])
        ensures
            r@.len() == self@.universe.len(),
            forall|i: int| 0 <= i < r@.len() ==> r@[i] as int == level_to_byte(self@.universe[i] as int),
    {
        let mut out: [u8; UNIVERSE_SIZE] = [0u8; UNIVERSE_SIZE];
        let mut i: usize = 0;
        while i < UNIVERSE_SIZE
            invariant
                0 <= i <= UNIVERSE_SIZE,
                out@.len() == UNIVERSE_SIZE,
                self.universe@.len() == UNIVERSE_SIZE,
                forall|j: int| 0 <= j < i ==> out@[j] as int == level_to_byte(self.universe@[j] as int),
            decreases UNIVERSE_SIZE - i,
        {
            out[i] = to_byte(self.universe[i]);
            i = i + 1;
        }
        out
    }

    fn apply_updates(&mut self, updates: &Vec<Update>)
        ensures
            final(self)@ == (DmxView { universe: apply_updates(old(self)@.universe, updates@), ..old(self)@ }),
    {
        proof {
            use_type_invariant(&*self);
        }
        let ghost start = self.universe@;
        let mut k: usize = 0;
        while k < updates.len()
            invariant
                0 <= k <= updates.len(),
                self.wheel@ == wheel_flags(UNIVERSE_SIZE as nat, self.fixtures@, self.definitions@),
                self.universe@ == apply_updates(start, updates@.take(k as int)),
                start.len() == UNIVERSE_SIZE,
                self.fixtures == old(self).fixtures,
                self.definitions == old(self).definitions,
            decreases updates.len() - k,
        {
            assert(updates@.take(k as int + 1).drop_last() =~= updates@.take(k as int));
            proof {
                lemma_apply_updates_len(start, updates@.take(k as int));
            }
            let (s, v) = updates[k];
            if s < UNIVERSE_SIZE as u64 {
                self.universe[s as usize] = v;
            }
            k = k + 1;
        }
        assert(updates@.take(k as int) =~= updates@);
    }
}

fn push_all(out: &mut Vec<Update>, more: Vec<Update>)
    ensures
        final(out)@ == old(out)@ + more@,
{
    let mut more = more;
    out.append(&mut more);
}

impl<'a> RenderTarget for DmxRenderTarget<'a> {
    open spec fn applied(v: DmxView, id: QualifiedFixtureId, state: FixtureState, palette: PaletteColors) -> DmxView {
        dmx_applied(v, id, state, palette)
    }

    open spec fn blended(v: DmxView, a: DmxView, b: DmxView, t: int) -> DmxView {
        dmx_blended(v, a, b, t)
    }

    fn apply_state(&mut self, id: &QualifiedFixtureId, state: &FixtureState, palette: &PaletteColors) {
        proof {
            lemma_first_index_valid(self.fixtures@, id.fixture);
        }
        let fi = match find_index(self.fixtures, id.fixture) {
            Some(fi) => fi,
            None => return ,
        };
        let fixtures = self.fixtures;
        let f = &fixtures[fi];
        let mode = match get_fixture_mode(self.definitions, f) {
            Some(m) => m,
            None => return ,
        };
        let offset = f.channel_offset;
        let chans = &mode.channels;
        let mut all: Vec<Update> = Vec::new();
        match state.color_in(palette) {
            Some(c) => push_all(&mut all, Self::compute_color_channel_updates(offset, mode, c)),
            None => {},
        }
        if let Some(v) = state.pan {
            push_all(&mut all, Self::compute_angle_channel_updates(offset, mode, ChannelKind::Pan, v));
        }
        if let Some(v) = state.tilt {
            push_all(&mut all, Self::compute_angle_channel_updates(offset, mode, ChannelKind::Tilt, v));
        }
        if let Some(v) = state.dimmer {
            push_all(&mut all, Self::compute_amount_channel_updates(offset, mode, ChannelKind::Dimmer, v));
        }
        if let Some(v) = state.strobe {
            push_all(&mut all, Self::compute_amount_channel_updates(offset, mode, ChannelKind::Strobe, v));
        }
        if let Some(v) = state.width {
            push_all(&mut all, Self::compute_amount_channel_updates(offset, mode, ChannelKind::Width, v));
        }
        if let Some(v) = state.height {
            push_all(&mut all, Self::compute_amount_channel_updates(offset, mode, ChannelKind::Height, v));
        }
        if let Some(v) = state.zoom {
            push_all(&mut all, Self::compute_amount_channel_updates(offset, mode, ChannelKind::Zoom, v));
        }
        assert(all@ =~= state_updates(offset, chans@, *state, resolve_color(*state, *palette)));
        self.apply_updates(&all);
    }

    fn interpolate(&mut self, a: &Self, b: &Self, t: i64) {
        proof {
            use_type_invariant(&*self);
            lemma_mark_fixtures_len(
                Seq::new(self.universe@.len(), |i: int| false),
                self.fixtures@,
                self.definitions@,
            );
        }
        let ghost start = self.universe@;
        let ghost target = dmx_blended(old(self)@, a@, b@, t as int).universe;
        let n = UNIVERSE_SIZE;
        let mut i: usize = 0;
        while i < n
            invariant
                0 <= i <= n,
                n == start.len(),
                self.wheel@.len() == n,
                self.wheel@ == wheel_flags(n as nat, self.fixtures@, self.definitions@),
                self.fixtures == old(self).fixtures,
                self.definitions == old(self).definitions,
                start == old(self)@.universe,
                target == dmx_blended(old(self)@, a@, b@, t as int).universe,
                self.universe@.len() == n,
                forall|j: int| 0 <= j < i ==> self.universe@[j] == target[j],
                forall|j: int| i <= j < n ==> self.universe@[j] == start[j],
            decreases n - i,
        {
            if i < UNIVERSE_SIZE {
                let av = a.universe[i];
                let bv = b.universe[i];
                let v = if self.wheel[i] {
                    if t < UNIT / 2 {
                        av
                    } else {
                        bv
                    }
                } else {
                    blend(av, bv, t)
                };
                self.universe[i] = v;
            }
            i = i + 1;
        }
        assert(self.universe@ =~= target);
    }

    fn duplicate(&self) -> (r: Self) {
        proof {
            use_type_invariant(self);
        }
        DmxRenderTarget { universe: self.universe, wheel: self.wheel, fixtures: self.fixtures, definitions: self.definitions }
    }
}

} // verus!
