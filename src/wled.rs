//! The WLED render target: one descriptor per segment of a WLED output.

use vstd::prelude::*;

use crate::fixed::{blend, lerp, level_to_byte, sat, saturate, to_byte, UNIT};
use crate::model::{PaletteColors, FixtureState, QualifiedFixtureId};
use crate::palette::resolve_color;
use crate::target::RenderTarget;

verus! {

/// A segment's colour, components in fixed point.
#[derive(Clone, Copy, Debug, PartialEq, Eq, Structural)]
pub struct SegmentColor {
    pub red: i64,
    pub green: i64,
    pub blue: i64,
}

/// What one WLED segment shows.
#[derive(Clone, Copy, Debug, PartialEq, Eq, Structural)]
pub struct Segment {
    pub effect: u32,
    pub palette: u32,
    pub primary_color: Option<SegmentColor>,
    pub speed: i64,
    pub brightness: i64,
}

/// The segments of one WLED output.
#[derive(Debug)]
pub struct WledRenderTarget {
    pub id: u64,
    pub segments: Vec<Segment>,
}

/// What a WLED target holds, as values.
pub ghost struct WledView {
    pub id: u64,
    pub segments: Seq<Segment>,
}

impl View for WledRenderTarget {
    type V = WledView;

    open spec fn view(&self) -> WledView {
        WledView { id: self.id, segments: self.segments@ }
    }
}

/// A segment as a fresh output shows it: no effect, black, full speed and
/// brightness.
pub open spec fn default_segment() -> Segment {
    Segment {
        effect: 0,
        palette: 0,
        primary_color: Some(SegmentColor { red: 0, green: 0, blue: 0 }),
        speed: UNIT,
        brightness: UNIT,
    }
}

/// A segment after `state` is written to it: effect, palette, colour (white
/// added to red, green and blue) and dimmer as brightness, where given.
pub open spec fn segment_applied(s: Segment, state: FixtureState, palette: PaletteColors) -> Segment {
    let s1 = match state.wled_effect {
        Some(e) => Segment { effect: e, ..s },
        None => s,
    };
    let s2 = match state.wled_palette {
        Some(p) => Segment { palette: p, ..s1 },
        None => s1,
    };
    let s3 = match resolve_color(state, palette) {
        Some(c) => match c.white {
            Some(w) => Segment {
                primary_color: Some(
                    SegmentColor {
                        red: sat(c.red + w) as i64,
                        green: sat(c.green + w) as i64,
                        blue: sat(c.blue + w) as i64,
                    },
                ),
                ..s2
            },
            None => Segment {
                primary_color: Some(SegmentColor { red: c.red, green: c.green, blue: c.blue }),
                ..s2
            },
        },
        None => s2,
    };
    match state.dimmer {
        Some(d) => Segment { brightness: d, ..s3 },
        None => s3,
    }
}

/// The target after `state` is written for `id`: only a fixture of this
/// output whose number is a segment index changes.
pub open spec fn wled_applied(v: WledView, id: QualifiedFixtureId, state: FixtureState, palette: PaletteColors) -> WledView {
    if id.output == v.id && id.fixture < v.segments.len() {
        WledView {
            segments: v.segments.update(
                id.fixture as int,
                segment_applied(v.segments[id.fixture as int], state, palette),
            ),
            ..v
        }
    } else {
        v
    }
}

/// The blend of two colours; where one side has none, the side that the
/// effect is taken from gives it.
pub open spec fn blend_segment_color(a: Option<SegmentColor>, b: Option<SegmentColor>, t: int) -> Option<SegmentColor> {
    match (a, b) {
        (Some(ac), Some(bc)) => Some(
            SegmentColor {
                red: lerp(ac.red as int, bc.red as int, t) as i64,
                green: lerp(ac.green as int, bc.green as int, t) as i64,
                blue: lerp(ac.blue as int, bc.blue as int, t) as i64,
            },
        ),
        _ => if t < UNIT / 2 {
            a
        } else {
            b
        },
    }
}

/// A blended segment: effect and palette switch at half way; colour, speed and
/// brightness are linear.
pub open spec fn blend_segment(a: Segment, b: Segment, t: int) -> Segment {
    Segment {
        effect: if t < UNIT / 2 {
            a.effect
        } else {
            b.effect
        },
        palette: if t < UNIT / 2 {
            a.palette
        } else {
            b.palette
        },
        primary_color: blend_segment_color(a.primary_color, b.primary_color, t),
        speed: lerp(a.speed as int, b.speed as int, t) as i64,
        brightness: lerp(a.brightness as int, b.brightness as int, t) as i64,
    }
}

/// The target after a blend; segments past the end of either side stay.
pub open spec fn wled_blended(v: WledView, a: WledView, b: WledView, t: int) -> WledView {
    WledView {
        segments: Seq::new(
            v.segments.len(),
            |i: int|
                if i < a.segments.len() && i < b.segments.len() {
                    blend_segment(a.segments[i], b.segments[i], t)
                } else {
                    v.segments[i]
                },
        ),
        ..v
    }
}

fn apply_to_segment(s: Segment, state: &FixtureState, palette: &PaletteColors) -> (r: Segment)
    ensures
        r == segment_applied(s, *state, *palette),
{
    let mut seg = s;
    if let Some(e) = state.wled_effect {
        seg.effect = e;
    }
    if let Some(p) = state.wled_palette {
        seg.palette = p;
    }
    if let Some(c) = state.color_in(palette) {
        if let Some(w) = c.white {
            seg.primary_color = Some(
                SegmentColor {
                    red: saturate(c.red as i128 + w as i128),
                    green: saturate(c.green as i128 + w as i128),
                    blue: saturate(c.blue as i128 + w as i128),
                },
            );
        } else {
            seg.primary_color = Some(SegmentColor { red: c.red, green: c.green, blue: c.blue });
        }
    }
    if let Some(d) = state.dimmer {
        seg.brightness = d;
    }
    seg
}

fn interpolate_segment_color(a: Option<SegmentColor>, b: Option<SegmentColor>, t: i64) -> (r: Option<SegmentColor>)
    ensures
        r == blend_segment_color(a, b, t as int),
{
    match (a, b) {
        (Some(ac), Some(bc)) => Some(
            SegmentColor {
                red: blend(ac.red, bc.red, t),
                green: blend(ac.green, bc.green, t),
                blue: blend(ac.blue, bc.blue, t),
            },
        ),
        _ => if t < UNIT / 2 {
            a
        } else {
            b
        },
    }
}

/// Blends two segments by `t`.
pub fn interpolate_segment(a: &Segment, b: &Segment, t: i64) -> (r: Segment)
    ensures
        r == blend_segment(*a, *b, t as int),
{
    let half = t < UNIT / 2;
    Segment {
        effect: if half {
            a.effect
        } else {
            b.effect
        },
        palette: if half {
            a.palette
        } else {
            b.palette
        },
        primary_color: interpolate_segment_color(a.primary_color, b.primary_color, t),
        speed: blend(a.speed, b.speed, t),
        brightness: blend(a.brightness, b.brightness, t),
    }
}

impl WledRenderTarget {
    /// A target for output `id` with `count` segments in their default state.
    pub fn new(id: u64, count: usize) -> (r: WledRenderTarget)
        ensures
            r@.id == id,
            r@.segments =~= Seq::new(count as nat, |i: int| default_segment()),
    {
        let mut segments: Vec<Segment> = Vec::new();
        let mut k: usize = 0;
        while k < count
            invariant
                0 <= k <= count,
                segments@ =~= Seq::new(k as nat, |i: int| default_segment()),
            decreases count - k,
        {
            segments.push(
                Segment {
                    effect: 0,
                    palette: 0,
                    primary_color: Some(SegmentColor { red: 0, green: 0, blue: 0 }),
                    speed: UNIT,
                    brightness: UNIT,
                },
            );
            k = k + 1;
        }
        WledRenderTarget { id, segments }
    }
}

impl RenderTarget for WledRenderTarget {
    open spec fn applied(v: WledView, id: QualifiedFixtureId, state: FixtureState, palette: PaletteColors) -> WledView {
        wled_applied(v, id, state, palette)
    }

    open spec fn blended(v: WledView, a: WledView, b: WledView, t: int) -> WledView {
        wled_blended(v, a, b, t)
    }

    fn apply_state(&mut self, id: &QualifiedFixtureId, state: &FixtureState, palette: &PaletteColors) {
        if id.output != self.id || id.fixture >= self.segments.len() as u64 {
            return ;
        }
        let i = id.fixture as usize;
        let seg = apply_to_segment(self.segments[i], state, palette);
        self.segments.set(i, seg);
    }

    fn interpolate(&mut self, a: &Self, b: &Self, t: i64) {
        let ghost start = self.segments@;
        let ghost target = wled_blended(old(self)@, a@, b@, t as int).segments;
        let n = self.segments.len();
        let mut i: usize = 0;
        while i < n
            invariant
                0 <= i <= n,
                n == start.len(),
                self.id == old(self).id,
                start == old(self)@.segments,
                target == wled_blended(old(self)@, a@, b@, t as int).segments,
                self.segments@.len() == n,
                forall|j: int| 0 <= j < i ==> self.segments@[j] == target[j],
                forall|j: int| i <= j < n ==> self.segments@[j] == start[j],
            decreases n - i,
        {
            if i < a.segments.len() && i < b.segments.len() {
                let s = interpolate_segment(&a.segments[i], &b.segments[i], t);
                self.segments.set(i, s);
            }
            i = i + 1;
        }
        assert(self.segments@ =~= target);
    }

    fn duplicate(&self) -> (r: Self) {
        let mut segments: Vec<Segment> = Vec::new();
        let mut i: usize = 0;
        while i < self.segments.len()
            invariant
                0 <= i <= self.segments.len(),
                segments@ =~= self.segments@.take(i as int),
            decreases self.segments.len() - i,
        {
            segments.push(self.segments[i]);
            i = i + 1;
        }
        assert(segments@ =~= self.segments@);
        WledRenderTarget { id: self.id, segments }
    }
}

// ---------------------------------------------------------------- output

/// One segment as a WLED controller takes it: bytes and numbers.
#[derive(Clone, Copy, Debug, PartialEq, Eq, Structural)]
pub struct SegmentBytes {
    pub id: u16,
    pub red: u8,
    pub green: u8,
    pub blue: u8,
    pub fx: u16,
    pub sx: u8,
    pub pal: u16,
    pub bri: u8,
}

/// A colour component of a segment that has none is off.
pub open spec fn component_byte(c: Option<SegmentColor>, which: int) -> int {
    match c {
        Some(c) => level_to_byte(
            if which == 0 {
                c.red as int
            } else if which == 1 {
                c.green as int
            } else {
                c.blue as int
            },
        ),
        None => 0,
    }
}

/// The controller's form of segment `index`: each level `v` becomes
/// `clamp(v·255, 0, 255)`, effect and palette numbers are kept to 16 bits.
pub fn segment_bytes(index: u16, s: &Segment) -> (r: SegmentBytes)
    ensures
        r.id == index,
        r.red as int == component_byte(s.primary_color, 0),
        r.green as int == component_byte(s.primary_color, 1),
        r.blue as int == component_byte(s.primary_color, 2),
        r.fx as int == s.effect as int % 0x10000,
        r.pal as int == s.palette as int % 0x10000,
        r.sx as int == level_to_byte(s.speed as int),
        r.bri as int == level_to_byte(s.brightness as int),
{
    let (red, green, blue) = match s.primary_color {
        Some(c) => (to_byte(c.red), to_byte(c.green), to_byte(c.blue)),
        None => (0u8, 0u8, 0u8),
    };
    SegmentBytes {
        id: index,
        red,
        green,
        blue,
        fx: (s.effect % 0x10000) as u16,
        sx: to_byte(s.speed),
        pal: (s.palette % 0x10000) as u16,
        bri: to_byte(s.brightness),
    }
}

/// Every segment of a target in the controller's form, numbered in order.
pub fn wled_segments_bytes(target: &WledRenderTarget) -> (r: Vec<SegmentBytes>)
    requires
        target.segments.len() <= 0x10000,
    ensures
        r@.len() == target.segments@.len(),
        forall|i: int|
            0 <= i < r@.len() ==> r@[i].id == i && r@[i].sx as int == level_to_byte(target.segments@[i].speed as int)
                && r@[i].bri as int == level_to_byte(target.segments@[i].brightness as int)
                && r@[i].fx as int == target.segments@[i].effect as int % 0x10000
                && r@[i].pal as int == target.segments@[i].palette as int % 0x10000
                && r@[i].red as int == component_byte(target.segments@[i].primary_color, 0)
                && r@[i].green as int == component_byte(target.segments@[i].primary_color, 1)
                && r@[i].blue as int == component_byte(target.segments@[i].primary_color, 2),
{
    let mut out: Vec<SegmentBytes> = Vec::new();
    let mut i: usize = 0;
    while i < target.segments.len()
        invariant
            0 <= i <= target.segments.len(),
            target.segments.len() <= 0x10000,
            out@.len() == i,
            forall|j: int|
                0 <= j < i ==> out@[j].id == j && out@[j].sx as int == level_to_byte(target.segments@[j].speed as int)
                    && out@[j].bri as int == level_to_byte(target.segments@[j].brightness as int)
                    && out@[j].fx as int == target.segments@[j].effect as int % 0x10000
                    && out@[j].pal as int == target.segments@[j].palette as int % 0x10000
                    && out@[j].red as int == component_byte(target.segments@[j].primary_color, 0)
                    && out@[j].green as int == component_byte(target.segments@[j].primary_color, 1)
                    && out@[j].blue as int == component_byte(target.segments@[j].primary_color, 2),
        decreases target.segments.len() - i,
    {
        out.push(segment_bytes(i as u16, &target.segments[i]));
        i = i + 1;
    }
    out
}

} // verus!
