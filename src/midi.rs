//! The values that a MIDI controller's lights show, and the messages that
//! carry them.

use vstd::prelude::*;

use crate::fixed::{clamp, floor_div, UNIT};
use crate::model::{Action, BeatMetadata, Controller, ControllerAction, Project, SceneAction, SceneMappingEntry};
use crate::tile::{calculate_tile_strength, tile_strength};
use crate::timing::{beat_progress, beat_t_at, fract};
use vstd::string::StrSliceExecFns;

verus! {

/// A port a MIDI controller can be reached on.
#[derive(Clone, Debug)]
pub struct MidiPortCandidate {
    pub id: String,
    pub name: String,
}

/// A fixed-point value rounded to a whole number, halves away from zero.
pub open spec fn round_whole(x: int) -> int {
    if x >= UNIT / 2 {
        UNIT as int
    } else if x <= -(UNIT / 2) {
        -UNIT
    } else {
        0
    }
}

/// The first scene entry for `scene_id`.
pub open spec fn scene_entry(entries: Seq<SceneMappingEntry>, scene_id: u64) -> Option<SceneMappingEntry>
    decreases entries.len(),
{
    if entries.len() == 0 {
        None
    } else {
        match scene_entry(entries.drop_last(), scene_id) {
            Some(e) => Some(e),
            None => if entries.last().scene_id == scene_id {
                Some(entries.last())
            } else {
                None
            },
        }
    }
}

/// The value of a control before clamping:
/// - beat match: 1 on the first half of each beat, else 0;
/// - first beat: 1 on the first half of each bar of four beats, else 0;
/// - tempo: `(60000 / beat length − 80) / 127`;
/// - a scene mapping: 1 for a palette, the tile's strength for a tile, else 0.
pub open spec fn raw_midi_value(project: Project, beat: BeatMetadata, t: u64, action: Option<Action>) -> int {
    let beat_t = beat_progress(t, beat);
    match action {
        Some(Action::BeatMatch) => UNIT - round_whole(fract(beat_t)),
        Some(Action::FirstBeat) => {
            let r = if beat_t >= 0 {
                beat_t % (4 * UNIT)
            } else {
                -((-beat_t) % (4 * UNIT))
            };
            UNIT - round_whole(floor_div(r, 4))
        },
        Some(Action::SetTempo) => if beat.length_ms == 0 {
            UNIT as int
        } else {
            floor_div(floor_div(60000 * UNIT, beat.length_ms as int) - 80 * UNIT, 127)
        },
        Some(Action::SceneMapping { actions }) => match scene_entry(actions@, project.active_scene) {
            Some(e) => match e.action {
                Some(SceneAction::ColorPaletteId(_)) => UNIT as int,
                Some(SceneAction::TileStrengthId(id)) => tile_strength(project, id, t),
                None => 0,
            },
            None => 0,
        },
        None => 0,
    }
}

/// The value a control shows, within `[0, 1]`.
pub open spec fn midi_value(project: Project, beat: BeatMetadata, t: u64, action: Option<Action>) -> int {
    clamp(raw_midi_value(project, beat, t, action), 0, UNIT as int)
}

/// The first controller called `name`.
pub open spec fn controller_named(cs: Seq<Controller>, name: Seq<char>) -> Option<Controller>
    decreases cs.len(),
{
    if cs.len() == 0 {
        None
    } else {
        match controller_named(cs.drop_last(), name) {
            Some(c) => Some(c),
            None => if cs.last().name@ == name {
                Some(cs.last())
            } else {
                None
            },
        }
    }
}

proof fn lemma_controller_prefix(s: Seq<Controller>, n: int, name: Seq<char>)
    requires
        0 <= n <= s.len(),
        controller_named(s.take(n), name) is Some,
    ensures
        controller_named(s, name) == controller_named(s.take(n), name),
    decreases s.len() - n,
{
    if n < s.len() {
        assert(s.take(n + 1).drop_last() =~= s.take(n));
        lemma_controller_prefix(s, n + 1, name);
    } else {
        assert(s.take(n) =~= s);
    }
}

proof fn lemma_scene_entry_prefix(s: Seq<SceneMappingEntry>, n: int, id: u64)
    requires
        0 <= n <= s.len(),
        scene_entry(s.take(n), id) is Some,
    ensures
        scene_entry(s, id) == scene_entry(s.take(n), id),
    decreases s.len() - n,
{
    if n < s.len() {
        assert(s.take(n + 1).drop_last() =~= s.take(n));
        lemma_scene_entry_prefix(s, n + 1, id);
    } else {
        assert(s.take(n) =~= s);
    }
}

fn find_controller<'b>(cs: &'b Vec<Controller>, name: &String) -> (r: Option<&'b Controller>)
    ensures
        match (r, controller_named(cs@, name@)) {
            (Some(a), Some(b)) => *a == b,
            (None, None) => true,
            _ => false,
        },
{
    let mut i: usize = 0;
    while i < cs.len()
        invariant
            0 <= i <= cs.len(),
            controller_named(cs@.take(i as int), name@) is None,
        decreases cs.len() - i,
    {
        assert(cs@.take(i as int + 1).drop_last() =~= cs@.take(i as int));
        if cs[i].name == *name {
            proof {
                lemma_controller_prefix(cs@, i as int + 1, name@);
            }
            return Some(&cs[i]);
        }
        i = i + 1;
    }
    assert(cs@.take(i as int) =~= cs@);
    None
}

fn find_scene_entry(entries: &Vec<SceneMappingEntry>, id: u64) -> (r: Option<SceneMappingEntry>)
    ensures
        r == scene_entry(entries@, id),
{
    let mut i: usize = 0;
    while i < entries.len()
        invariant
            0 <= i <= entries.len(),
            scene_entry(entries@.take(i as int), id) is None,
        decreases entries.len() - i,
    {
        assert(entries@.take(i as int + 1).drop_last() =~= entries@.take(i as int));
        if entries[i].scene_id == id {
            proof {
                lemma_scene_entry_prefix(entries@, i as int + 1, id);
            }
            return Some(entries[i]);
        }
        i = i + 1;
    }
    assert(entries@.take(i as int) =~= entries@);
    None
}

fn round_unit(x: i128) -> (r: i128)
    ensures
        r == round_whole(x as int),
{
    if x >= 500_000 {
        1_000_000
    } else if x <= -500_000 {
        -1_000_000
    } else {
        0
    }
}

fn control_value(project: &Project, beat: &BeatMetadata, t: u64, action: &Option<Action>) -> (r: i64)
    ensures
        r == midi_value(*project, *beat, t, *action),
{
    let beat_t = beat_t_at(t, beat);
    let raw: i128 = match action {
        Some(Action::BeatMatch) => {
            let f: i128 = if beat_t >= 0 {
                beat_t % 1_000_000
            } else {
                -((-beat_t) % 1_000_000)
            };
            1_000_000 - round_unit(f)
        },
        Some(Action::FirstBeat) => {
            let r: i128 = if beat_t >= 0 {
                beat_t % 4_000_000
            } else {
                -((-beat_t) % 4_000_000)
            };
            1_000_000 - round_unit(crate::fixed::div_floor(r, 4))
        },
        Some(Action::SetTempo) => if beat.length_ms == 0 {
            1_000_000
        } else {
            let bpm: i128 = crate::fixed::div_floor(60_000_000_000, beat.length_ms as i128);
            crate::fixed::div_floor(bpm - 80_000_000, 127)
        },
        Some(Action::SceneMapping { actions }) => match find_scene_entry(actions, project.active_scene) {
            Some(e) => match e.action {
                Some(SceneAction::ColorPaletteId(_)) => 1_000_000,
                Some(SceneAction::TileStrengthId(id)) => calculate_tile_strength(project, id, t) as i128,
                None => 0,
            },
            None => 0,
        },
        None => 0,
    };
    if raw < 0 {
        0
    } else if raw > 1_000_000 {
        1_000_000
    } else {
        raw as i64
    }
}

/// The values that the controls of controller `controller_name` show at
/// `t`, one per control in order; none for an empty name, an unknown
/// controller, or a project without controller mapping or beat clock.
pub fn calculate_midi_output(project: &Project, controller_name: &String, t: u64) -> (r: Vec<(String, i64)>)
    ensures
        (controller_name@.len() == 0 || project.controller_mapping is None || project.live_beat is None) ==> r@.len() == 0,
        controller_name@.len() > 0 && project.controller_mapping is Some && project.live_beat is Some ==> match controller_named(
            project.controller_mapping->0.controllers@,
            controller_name@,
        ) {
            None => r@.len() == 0,
            Some(c) => {
                &&& r@.len() == c.actions@.len()
                &&& forall|i: int|
                    0 <= i < r@.len() ==> r@[i].0@ == c.actions@[i].channel@ && r@[i].1 == midi_value(
                        *project,
                        project.live_beat->0,
                        t,
                        c.actions@[i].action,
                    )
            },
        },
{
    let mut out: Vec<(String, i64)> = Vec::new();
    if controller_name.as_str().is_empty() {
        return out;
    }
    let mapping = match &project.controller_mapping {
        Some(m) => m,
        None => return out,
    };
    let beat = match project.live_beat {
        Some(b) => b,
        None => return out,
    };
    let c = match find_controller(&mapping.controllers, controller_name) {
        Some(c) => c,
        None => return out,
    };
    let mut i: usize = 0;
    while i < c.actions.len()
        invariant
            0 <= i <= c.actions.len(),
            out@.len() == i,
            forall|j: int|
                0 <= j < i ==> out@[j].0@ == c.actions@[j].channel@ && out@[j].1 == midi_value(*project, beat, t, c.actions@[j].action),
        decreases c.actions.len() - i,
    {
        let a: &ControllerAction = &c.actions[i];
        let v = control_value(project, &beat, t, &a.action);
        out.push((a.channel.clone(), v));
        i = i + 1;
    }
    out
}

/// The messages that show `value` on control `(status, data)`: the value in
/// seven bits, rounded; for a status below 32 also the remainder in seven
/// more bits on data + 32. The value is first clamped to `[0, 1]`.
pub fn output_value(channel: (u8, u8), value: i64) -> (r: Vec<(u8, u8, u8)>)
    ensures
        ({
            let v = clamp(value as int, 0, UNIT as int);
            let msb = (v * 127 + UNIT / 2) / (UNIT as int);
            let lsb = ((v * 127) % (UNIT as int)) * 127 / (UNIT as int);
            &&& r@.len() == if channel.0 < 32 {
                2int
            } else {
                1int
            }
            &&& r@[0] == (channel.0, channel.1, msb as u8)
            &&& channel.0 < 32 ==> r@[1] == (channel.0, ((channel.1 + 32) % 256) as u8, lsb as u8)
        }),
{
    let v: i64 = if value < 0 {
        0
    } else if value > 1_000_000 {
        1_000_000
    } else {
        value
    };
    let scaled: i64 = v * 127;
    let msb: i64 = (scaled + 500_000) / 1_000_000;
    assert(msb <= 127);
    let rem: i64 = scaled % 1_000_000;
    let lsb: i64 = rem * 127 / 1_000_000;
    assert(lsb <= 127) by (nonlinear_arith)
        requires
            0 <= rem < 1_000_000,
            lsb == rem * 127 / 1_000_000,
    ;
    let mut out: Vec<(u8, u8, u8)> = Vec::new();
    out.push((channel.0, channel.1, msb as u8));
    if channel.0 < 32 {
        out.push((channel.0, channel.1.wrapping_add(32), lsb as u8));
    }
    out
}

// ---------------------------------------------------------------- addresses

/// A decimal digit.
pub open spec fn is_digit(c: char) -> bool {
    '0' <= c && c <= '9'
}

/// The value of a string of decimal digits.
pub open spec fn digits_value(d: Seq<char>) -> int
    decreases d.len(),
{
    if d.len() == 0 {
        0
    } else {
        digits_value(d.drop_last()) * 10 + (d.last() as int - '0' as int)
    }
}

/// Text without one leading `+`.
pub open spec fn unsigned_part(p: Seq<char>) -> Seq<char> {
    if p.len() > 0 && p[0] == '+' {
        p.skip(1)
    } else {
        p
    }
}

/// Text made of decimal digits only.
pub open spec fn all_digits(d: Seq<char>) -> bool {
    forall|i: int| 0 <= i < d.len() ==> is_digit(d[i])
}

/// A byte written in decimal, with an optional leading `+`, as `u8` parses it.
pub open spec fn parse_u8(p: Seq<char>) -> Option<u8> {
    let d = unsigned_part(p);
    if d.len() > 0 && all_digits(d) && digits_value(d) <= 255 {
        Some(digits_value(d) as u8)
    } else {
        None
    }
}

/// The first `", "` of `s` from position `from` on.
pub open spec fn first_separator(s: Seq<char>, from: int) -> Option<int>
    decreases s.len() - from,
{
    if from < 0 || from + 1 >= s.len() {
        None
    } else if s[from] == ',' && s[from + 1] == ' ' {
        Some(from)
    } else {
        first_separator(s, from + 1)
    }
}

/// The status and data bytes of a control's address `"status, data"`: the
/// first two pieces of the text split at `", "`, each a byte.
pub open spec fn channel_address(s: Seq<char>) -> Option<(u8, u8)> {
    match first_separator(s, 0) {
        None => None,
        Some(k) => {
            let end = match first_separator(s, k + 2) {
                Some(j) => j,
                None => s.len() as int,
            };
            match (parse_u8(s.subrange(0, k)), parse_u8(s.subrange(k + 2, end))) {
                (Some(a), Some(b)) => Some((a, b)),
                _ => None,
            }
        },
    }
}

proof fn lemma_digits_value_grows(d: Seq<char>, j: int)
    requires
        0 <= j <= d.len(),
        forall|i: int| 0 <= i < d.len() ==> is_digit(d[i]),
    ensures
        0 <= digits_value(d.take(j)) <= digits_value(d),
    decreases d.len() - j,
{
    if j < d.len() {
        assert(d.take(j + 1).drop_last() =~= d.take(j));
        lemma_digits_value_grows(d, j + 1);
        assert(is_digit(d[j]));
    } else {
        assert(d.take(j) =~= d);
        lemma_digits_value_nonneg(d);
    }
}

proof fn lemma_digits_value_nonneg(d: Seq<char>)
    requires
        forall|i: int| 0 <= i < d.len() ==> is_digit(d[i]),
    ensures
        0 <= digits_value(d),
    decreases d.len(),
{
    if d.len() > 0 {
        lemma_digits_value_nonneg(d.drop_last());
    }
}

fn parse_piece(s: &str, from: usize, to: usize) -> (r: Option<u8>)
    requires
        from <= to <= s@.len(),
    ensures
        r == parse_u8(s@.subrange(from as int, to as int)),
{
    let ghost p = s@.subrange(from as int, to as int);
    let mut start = from;
    if from < to && s.get_char(from) == '+' {
        start = from + 1;
    }
    let ghost d = s@.subrange(start as int, to as int);
    assert(d =~= unsigned_part(p));
    if start == to {
        assert(d.len() == 0);
        return None;
    }
    let mut acc: u32 = 0;
    let mut i: usize = start;
    while i < to
        invariant
            start <= i <= to <= s@.len(),
            d == s@.subrange(start as int, to as int),
            p == s@.subrange(from as int, to as int),
            d == unsigned_part(p),
            forall|k: int| 0 <= k < i - start ==> is_digit(d[k]),
            acc == digits_value(d.take(i - start)),
            acc <= 255,
        decreases to - i,
    {
        let c = s.get_char(i);
        assert(c == d[i - start]);
        if !('0' <= c && c <= '9') {
            assert(!is_digit(d[i - start]));
            assert(!all_digits(d));
            return None;
        }
        assert(d.take(i - start + 1).drop_last() =~= d.take(i - start));
        let next: u32 = acc * 10 + (c as u32 - '0' as u32);
        if next > 255 {
            assert(d.take(i - start + 1).last() == c);
            assert(next == digits_value(d.take(i - start + 1)));
            proof {
                if all_digits(d) {
                    lemma_digits_value_grows(d, i - start + 1);
                }
            }
            return None;
        }
        acc = next;
        i = i + 1;
    }
    assert(d.take(i - start) =~= d);
    assert(all_digits(d));
    Some(acc as u8)
}

fn find_separator(s: &str, from: usize, n: usize) -> (r: Option<usize>)
    requires
        n == s@.len(),
        from <= n,
    ensures
        r matches Some(k) ==> first_separator(s@, from as int) == Some(k as int) && from <= k && k + 1 < n,
        r is None ==> first_separator(s@, from as int) is None,
    decreases n - from,
{
    if n - from < 2 {
        return None;
    }
    if s.get_char(from) == ',' && s.get_char(from + 1) == ' ' {
        Some(from)
    } else {
        find_separator(s, from + 1, n)
    }
}

/// The status and data bytes of a control's address `"status, data"`.
pub fn parse_channel_address(s: &str) -> (r: Option<(u8, u8)>)
    ensures
        r == channel_address(s@),
{
    let n = s.unicode_len();
    let k = match find_separator(s, 0, n) {
        Some(k) => k,
        None => return None,
    };
    let end = match find_separator(s, k + 2, n) {
        Some(j) => j,
        None => n,
    };
    match (parse_piece(s, 0, k), parse_piece(s, k + 2, end)) {
        (Some(a), Some(b)) => Some((a, b)),
        _ => None,
    }
}

} // verus!
