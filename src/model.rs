//! The project model: fixtures and their channel layouts, patches and
//! outputs, scenes made of tiles, effects and their timing.
//!
//! Mappings keyed by an id are lists of entries that carry their id; a lookup
//! takes the first entry with the id asked for.

use vstd::prelude::*;

verus! {

/// A colour with components in fixed point (`UNIT` is full).
#[derive(Clone, Copy, Debug, PartialEq, Eq, Structural)]
pub struct Color {
    pub red: i64,
    pub green: i64,
    pub blue: i64,
    pub white: Option<i64>,
}

/// How a fixture state names its colour.
#[derive(Clone, Copy, Debug, PartialEq, Eq, Structural)]
pub enum LightColor {
    /// A colour given directly.
    Color(Color),
    /// A colour of the scene's palette: 0 black, 1 white, 2 primary,
    /// 3 secondary, 4 tertiary.
    PaletteColor(u32),
}

/// The semantic state of one fixture; a field left `None` leaves the channels
/// it drives as they were.
#[derive(Clone, Copy, Debug, PartialEq, Eq, Structural)]
pub struct FixtureState {
    pub light_color: Option<LightColor>,
    pub dimmer: Option<i64>,
    pub strobe: Option<i64>,
    /// Degrees in fixed point.
    pub pan: Option<i64>,
    /// Degrees in fixed point.
    pub tilt: Option<i64>,
    pub width: Option<i64>,
    pub height: Option<i64>,
    pub zoom: Option<i64>,
    pub wled_effect: Option<u32>,
    pub wled_palette: Option<u32>,
}

impl FixtureState {
    /// A state that sets nothing.
    pub fn empty() -> (r: FixtureState)
        ensures
            r.light_color.is_none(),
            r.dimmer.is_none(),
            r.strobe.is_none(),
            r.pan.is_none(),
            r.tilt.is_none(),
            r.width.is_none(),
            r.height.is_none(),
            r.zoom.is_none(),
            r.wled_effect.is_none(),
            r.wled_palette.is_none(),
    {
        FixtureState {
            light_color: None,
            dimmer: None,
            strobe: None,
            pan: None,
            tilt: None,
            width: None,
            height: None,
            zoom: None,
            wled_effect: None,
            wled_palette: None,
        }
    }
}

/// One colour of a palette.
#[derive(Clone, Copy, Debug, PartialEq, Eq, Structural)]
pub struct ColorDescription {
    pub color: Option<Color>,
}

/// The three colours of a palette, as rendering uses them.
#[derive(Clone, Copy, Debug, PartialEq, Eq, Structural)]
pub struct PaletteColors {
    pub primary: Option<ColorDescription>,
    pub secondary: Option<ColorDescription>,
    pub tertiary: Option<ColorDescription>,
}

/// A named palette of up to three colours.
#[derive(Clone, Debug)]
pub struct ColorPalette {
    pub name: String,
    pub primary: Option<ColorDescription>,
    pub secondary: Option<ColorDescription>,
    pub tertiary: Option<ColorDescription>,
}

impl ColorPalette {
    /// A palette with no name and no colours.
    pub fn empty() -> (r: ColorPalette)
        ensures
            r.name@.len() == 0,
            r.primary.is_none(),
            r.secondary.is_none(),
            r.tertiary.is_none(),
    {
        ColorPalette { name: String::new(), primary: None, secondary: None, tertiary: None }
    }

    /// The palette's colours without its name.
    pub fn colors(&self) -> (r: PaletteColors)
        ensures
            r == self.spec_colors(),
    {
        PaletteColors { primary: self.primary, secondary: self.secondary, tertiary: self.tertiary }
    }

    /// The palette's colours without its name.
    pub open spec fn spec_colors(&self) -> PaletteColors {
        PaletteColors { primary: self.primary, secondary: self.secondary, tertiary: self.tertiary }
    }
}

/// Names one fixture (or WLED segment) of one output of one patch.
#[derive(Clone, Copy, Debug, PartialEq, Eq, Structural)]
pub struct QualifiedFixtureId {
    pub patch: u64,
    pub output: u64,
    pub fixture: u64,
}

/// The semantic type of a DMX channel.
#[derive(Clone, Copy, Debug, PartialEq, Eq, Structural)]
pub enum ChannelKind {
    Red,
    Green,
    Blue,
    White,
    Dimmer,
    Strobe,
    Pan,
    Tilt,
    Zoom,
    Width,
    Height,
    Other,
}

/// How a channel's value is derived from a state field.
#[derive(Clone, Copy, Debug, PartialEq, Eq, Structural)]
pub enum ChannelMapping {
    /// A level maps linearly onto `[min_value, max_value]` (bytes).
    Amount { min_value: u8, max_value: u8 },
    /// Degrees map linearly, `min_degrees` to 0 and `max_degrees` to full.
    Angle { min_degrees: i32, max_degrees: i32 },
    /// A colour wheel: never blended, it switches at half way.
    ColorWheel,
}

/// One channel of a fixture mode, at `index` from the fixture's offset.
#[derive(Clone, Copy, Debug, PartialEq, Eq, Structural)]
pub struct Channel {
    pub index: u32,
    pub kind: ChannelKind,
    pub mapping: Option<ChannelMapping>,
}

/// A channel layout of a fixture.
#[derive(Clone, Debug)]
pub struct Mode {
    pub name: String,
    pub num_channels: u32,
    pub channels: Vec<Channel>,
}

/// A fixture type with its modes.
#[derive(Clone, Debug)]
pub struct DmxFixtureDefinition {
    pub id: u64,
    pub name: String,
    pub modes: Vec<Mode>,
}

/// A fixture placed in a universe.
#[derive(Clone, Debug)]
pub struct PhysicalDmxFixture {
    pub id: u64,
    pub name: String,
    pub fixture_definition_id: u64,
    pub fixture_mode: String,
    pub channel_offset: u32,
}

/// What an output drives.
#[derive(Clone, Debug)]
pub enum OutputKind {
    SerialDmx { fixtures: Vec<PhysicalDmxFixture> },
    SacnDmx { universe: u32, ip_address: String, fixtures: Vec<PhysicalDmxFixture> },
    /// A WLED controller with its segment ids.
    Wled { ip_address: String, segments: Vec<u32> },
}

/// One output of a patch.
#[derive(Clone, Debug)]
pub struct Output {
    pub id: u64,
    pub output: Option<OutputKind>,
}

/// A set of outputs.
#[derive(Clone, Debug)]
pub struct Patch {
    pub id: u64,
    pub outputs: Vec<Output>,
}

/// Where an effect goes.
#[derive(Clone, Debug)]
pub enum OutputTarget {
    Fixtures(Vec<QualifiedFixtureId>),
    /// A group by id; 0 is every fixture of the active patch.
    Group(u64),
}

/// A named list of targets, possibly other groups.
#[derive(Clone, Debug)]
pub struct Group {
    pub id: u64,
    pub targets: Vec<OutputTarget>,
}

/// A linear beat clock.
#[derive(Clone, Copy, Debug, PartialEq, Eq, Structural)]
pub struct BeatMetadata {
    pub offset_ms: u64,
    pub length_ms: u64,
}

/// A span of time, in milliseconds or in beats (fixed point).
#[derive(Clone, Copy, Debug, PartialEq, Eq, Structural)]
pub enum Duration {
    Ms(u32),
    Beat(u64),
}

/// How long a tile runs.
#[derive(Clone, Copy, Debug, PartialEq, Eq, Structural)]
pub enum TimingDetails {
    OneShot { duration: Duration },
    Loop { fade_in: Option<Duration>, fade_out: Option<Duration> },
}

/// The transition state of a tile.
#[derive(Clone, Copy, Debug, PartialEq, Eq, Structural)]
pub enum Transition {
    StartFadeInMs(u64),
    StartFadeOutMs(u64),
    /// A fixed strength in fixed point.
    AbsoluteStrength(i64),
}

/// An easing curve.
#[derive(Clone, Copy, Debug, PartialEq, Eq, Structural)]
pub enum Easing {
    Linear,
    EaseIn,
    EaseOut,
    EaseInOut,
    Sine,
}

/// The clock an effect follows.
#[derive(Clone, Copy, Debug, PartialEq, Eq, Structural)]
pub enum Timing {
    Absolute { duration_ms: u64 },
    Beat { multiplier: u64 },
    OneShot,
}

/// How an effect turns time into progress.
#[derive(Clone, Copy, Debug, PartialEq, Eq, Structural)]
pub struct EffectTiming {
    pub timing: Option<Timing>,
    /// Phase offset per fixture, in fixed point.
    pub phase: i64,
    pub mirrored: bool,
    pub easing: Easing,
}

/// Alternation between two effects in pseudo-random windows.
#[derive(Debug)]
pub struct RandomEffect {
    pub effect_a: Option<Box<Effect>>,
    pub effect_b: Option<Box<Effect>>,
    pub effect_a_min: u32,
    pub effect_a_variation: u32,
    pub effect_b_min: u32,
    pub effect_b_variation: u32,
    pub seed: u32,
    pub timing_mode: Option<EffectTiming>,
    pub treat_fixtures_individually: bool,
}

/// A generator of fixture states.
#[derive(Debug)]
pub enum Effect {
    Static { state: Option<FixtureState> },
    Ramp {
        state_start: Option<FixtureState>,
        state_end: Option<FixtureState>,
        timing_mode: Option<EffectTiming>,
    },
    Strobe {
        state_a: Option<FixtureState>,
        state_b: Option<FixtureState>,
        state_a_frames: u32,
        state_b_frames: u32,
    },
    Random(RandomEffect),
    Sequence { sequence_id: u64, timing_mode: Option<EffectTiming> },
}

/// An effect with the fixtures it drives.
#[derive(Debug)]
pub struct EffectChannel {
    pub effect: Option<Effect>,
    pub output_target: Option<OutputTarget>,
}

/// A layer of a scene.
#[derive(Debug)]
pub struct Tile {
    pub name: String,
    pub transition: Option<Transition>,
    pub timing_details: Option<TimingDetails>,
    pub channels: Vec<EffectChannel>,
}

/// A tile placed in a scene.
#[derive(Debug)]
pub struct TileMap {
    pub id: u64,
    pub x: i32,
    pub y: i32,
    pub priority: i32,
    pub tile: Option<Tile>,
}

/// A palette with its id.
#[derive(Clone, Debug)]
pub struct PaletteEntry {
    pub id: u64,
    pub palette: ColorPalette,
}

/// A scene: tiles and palettes.
#[derive(Debug)]
pub struct Scene {
    pub id: u64,
    pub name: String,
    pub tile_map: Vec<TileMap>,
    pub color_palettes: Vec<PaletteEntry>,
    pub active_color_palette: u64,
    pub last_active_color_palette: u64,
    pub color_palette_start_transition: u64,
    pub color_palette_transition_duration_ms: u64,
}

/// One entry of a sequence layer, active on `(start_ms, end_ms]`.
#[derive(Debug)]
pub struct SequenceEntry {
    pub start_ms: u32,
    pub end_ms: u32,
    pub effect: Option<Effect>,
}

/// A time-sorted list of entries.
#[derive(Debug)]
pub struct SequenceLayer {
    pub effects: Vec<SequenceEntry>,
}

/// A sequence of effects over a number of beats.
#[derive(Debug)]
pub struct Sequence {
    pub id: u64,
    pub native_beats: u32,
    pub layers: Vec<SequenceLayer>,
}

/// The whole show.
#[derive(Debug)]
pub struct Project {
    pub name: String,
    pub patches: Vec<Patch>,
    pub active_patch: u64,
    pub scenes: Vec<Scene>,
    pub active_scene: u64,
    pub groups: Vec<Group>,
    pub sequences: Vec<Sequence>,
    pub live_beat: Option<BeatMetadata>,
    pub fixture_definitions: Option<Vec<DmxFixtureDefinition>>,
    pub controller_mapping: Option<ControllerMapping>,
}

/// What a scene-specific control shows.
#[derive(Clone, Copy, Debug, PartialEq, Eq, Structural)]
pub enum SceneAction {
    ColorPaletteId(u64),
    TileStrengthId(u64),
}

/// A control's meaning in one scene.
#[derive(Clone, Copy, Debug, PartialEq, Eq, Structural)]
pub struct SceneMappingEntry {
    pub scene_id: u64,
    pub action: Option<SceneAction>,
}

/// What a control of a MIDI controller shows.
#[derive(Clone, Debug)]
pub enum Action {
    /// Lit on the first half of each beat.
    BeatMatch,
    /// Lit on the first half of each bar of four beats.
    FirstBeat,
    /// The tempo, 80 BPM at 0 and 207 BPM at full.
    SetTempo,
    /// A meaning per scene.
    SceneMapping { actions: Vec<SceneMappingEntry> },
}

/// One control: its channel address (`"status, data"`) and what it shows.
#[derive(Clone, Debug)]
pub struct ControllerAction {
    pub channel: String,
    pub action: Option<Action>,
}

/// A MIDI controller by name.
#[derive(Clone, Debug)]
pub struct Controller {
    pub name: String,
    pub actions: Vec<ControllerAction>,
}

/// Every known controller.
#[derive(Clone, Debug)]
pub struct ControllerMapping {
    pub controllers: Vec<Controller>,
    pub last_controller_name: String,
}

} // verus!

verus! {

/// What the outputs show.
#[derive(Clone, Copy, Debug, PartialEq, Eq, Structural)]
pub enum RenderMode {
    /// Every channel off.
    Blackout,
    /// A scene of the project.
    Scene { scene_id: u64 },
    /// A test pattern for one output; this engine draws nothing for it, so the
    /// output stays dark as under a blackout.
    FixtureDebug { output_id: u64 },
    /// The members of a group in a rainbow.
    GroupDebug { group_id: u64 },
    /// A show; not rendered by this engine.
    Show,
}

} // verus!
