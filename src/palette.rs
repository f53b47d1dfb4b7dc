//! Palette colours: resolving a state's colour and morphing between palettes.

use vstd::prelude::*;

use crate::fixed::{blend, lerp, UNIT};
use crate::model::{Color, ColorDescription, ColorPalette, FixtureState, LightColor, PaletteColors};

verus! {

/// Palette colour 0.
pub open spec fn black() -> Color {
    Color { red: 0, green: 0, blue: 0, white: Some(0) }
}

/// Palette colour 1: the white channel at full, red, green and blue off.
pub open spec fn white() -> Color {
    Color { red: 0, green: 0, blue: 0, white: Some(UNIT) }
}

/// The colour a palette entry holds, if it holds one.
pub open spec fn description_color(d: Option<ColorDescription>) -> Option<Color> {
    match d {
        Some(desc) => desc.color,
        None => None,
    }
}

/// The concrete colour that a state asks for under a palette; `None` where the
/// state names no colour, an index past 4, or a palette entry that is missing.
pub open spec fn resolve_color(state: FixtureState, palette: PaletteColors) -> Option<Color> {
    match state.light_color {
        Some(LightColor::Color(c)) => Some(c),
        Some(LightColor::PaletteColor(i)) => {
            if i == 0 {
                Some(black())
            } else if i == 1 {
                Some(white())
            } else if i == 2 {
                description_color(palette.primary)
            } else if i == 3 {
                description_color(palette.secondary)
            } else if i == 4 {
                description_color(palette.tertiary)
            } else {
                None
            }
        },
        None => None,
    }
}

impl FixtureState {
    /// The concrete colour this state asks for under `color_palette`.
    pub fn get_color(&self, color_palette: &ColorPalette) -> (r: Option<Color>)
        ensures
            r == resolve_color(*self, color_palette.spec_colors()),
    {
        self.color_in(&color_palette.colors())
    }

    /// The concrete colour this state asks for under a palette's colours.
    pub fn color_in(&self, color_palette: &PaletteColors) -> (r: Option<Color>)
        ensures
            r == resolve_color(*self, *color_palette),
    {
        match self.light_color {
            Some(LightColor::Color(c)) => Some(c),
            Some(LightColor::PaletteColor(0)) => Some(Color { red: 0, green: 0, blue: 0, white: Some(0) }),
            Some(LightColor::PaletteColor(1)) => Some(
                Color { red: 0, green: 0, blue: 0, white: Some(UNIT) },
            ),
            Some(LightColor::PaletteColor(2)) => match color_palette.primary {
                Some(d) => d.color,
                None => None,
            },
            Some(LightColor::PaletteColor(3)) => match color_palette.secondary {
                Some(d) => d.color,
                None => None,
            },
            Some(LightColor::PaletteColor(4)) => match color_palette.tertiary {
                Some(d) => d.color,
                None => None,
            },
            _ => None,
        }
    }
}

/// The white component of a blend: a missing side counts as off.
pub open spec fn blend_white(a: Option<i64>, b: Option<i64>, t: int) -> Option<i64> {
    match (a, b) {
        (Some(aw), Some(bw)) => Some(lerp(aw as int, bw as int, t) as i64),
        (Some(aw), None) => Some(lerp(aw as int, 0, t) as i64),
        (None, Some(bw)) => Some(lerp(0, bw as int, t) as i64),
        (None, None) => None,
    }
}

/// Component-wise blend of two colours.
pub open spec fn blend_color(a: Color, b: Color, t: int) -> Color {
    Color {
        red: lerp(a.red as int, b.red as int, t) as i64,
        green: lerp(a.green as int, b.green as int, t) as i64,
        blue: lerp(a.blue as int, b.blue as int, t) as i64,
        white: blend_white(a.white, b.white, t),
    }
}

/// Blend of two palette entries: two colours blend; a colour held on one
/// side only passes through from that side; with no colour on either side the
/// entry of `b` (else of `a`) is kept.
pub open spec fn blend_description(
    a: Option<ColorDescription>,
    b: Option<ColorDescription>,
    t: int,
) -> Option<ColorDescription> {
    match (a, b) {
        (Some(ad), Some(bd)) => match (ad.color, bd.color) {
            (Some(ac), Some(bc)) => Some(ColorDescription { color: Some(blend_color(ac, bc, t)) }),
            (Some(_), None) => Some(ad),
            (None, _) => Some(bd),
        },
        (Some(ad), None) => Some(ad),
        (None, Some(bd)) => Some(bd),
        (None, None) => None,
    }
}

fn interpolate_white(a: Option<i64>, b: Option<i64>, t: i64) -> (r: Option<i64>)
    ensures
        r == blend_white(a, b, t as int),
{
    match (a, b) {
        (Some(aw), Some(bw)) => Some(blend(aw, bw, t)),
        (Some(aw), None) => Some(blend(aw, 0, t)),
        (None, Some(bw)) => Some(blend(0, bw, t)),
        (None, None) => None,
    }
}

/// Component-wise blend of two colours by `t`.
pub fn interpolate_color(a: &Color, b: &Color, t: i64) -> (r: Color)
    ensures
        r == blend_color(*a, *b, t as int),
{
    Color {
        red: blend(a.red, b.red, t),
        green: blend(a.green, b.green, t),
        blue: blend(a.blue, b.blue, t),
        white: interpolate_white(a.white, b.white, t),
    }
}

fn interpolate_description(
    a: Option<ColorDescription>,
    b: Option<ColorDescription>,
    t: i64,
) -> (r: Option<ColorDescription>)
    ensures
        r == blend_description(a, b, t as int),
{
    match (a, b) {
        (Some(ad), Some(bd)) => match (ad.color, bd.color) {
            (Some(ac), Some(bc)) => Some(ColorDescription { color: Some(interpolate_color(&ac, &bc, t)) }),
            (Some(_), None) => Some(ad),
            (None, _) => Some(bd),
        },
        (Some(ad), None) => Some(ad),
        (None, Some(bd)) => Some(bd),
        (None, None) => None,
    }
}

/// Blend of the colours of two palettes.
pub open spec fn blend_palette_colors(a: PaletteColors, b: PaletteColors, t: int) -> PaletteColors {
    PaletteColors {
        primary: blend_description(a.primary, b.primary, t),
        secondary: blend_description(a.secondary, b.secondary, t),
        tertiary: blend_description(a.tertiary, b.tertiary, t),
    }
}

/// Morphs the colours of palette `a` towards those of palette `b` by `t`.
pub fn interpolate_palette_colors(a: &PaletteColors, b: &PaletteColors, t: i64) -> (r: PaletteColors)
    ensures
        r == blend_palette_colors(*a, *b, t as int),
{
    PaletteColors {
        primary: interpolate_description(a.primary, b.primary, t),
        secondary: interpolate_description(a.secondary, b.secondary, t),
        tertiary: interpolate_description(a.tertiary, b.tertiary, t),
    }
}

/// Morphs palette `a` towards palette `b` by `t`; the result is named as `b`.
pub fn interpolate_palettes(a: &ColorPalette, b: &ColorPalette, t: i64) -> (r: ColorPalette)
    ensures
        r.name@ == b.name@,
        r.primary == blend_description(a.primary, b.primary, t as int),
        r.secondary == blend_description(a.secondary, b.secondary, t as int),
        r.tertiary == blend_description(a.tertiary, b.tertiary, t as int),
{
    ColorPalette {
        name: b.name.clone(),
        primary: interpolate_description(a.primary, b.primary, t),
        secondary: interpolate_description(a.secondary, b.secondary, t),
        tertiary: interpolate_description(a.tertiary, b.tertiary, t),
    }
}

} // verus!
