use dmx_engine::control::{disable_tile, enable_tile, list_tiles, set_tile_amount, ControlError};
use dmx_engine::dmx::DmxRenderTarget;
use dmx_engine::effects::apply_state;
use dmx_engine::model::{
    BeatMetadata, Channel, ChannelKind, ChannelMapping, Color, ColorDescription, ColorPalette,
    Duration, DmxFixtureDefinition, Easing, Effect, EffectChannel, EffectTiming, FixtureState,
    Group, LightColor, Mode, Output, OutputKind, OutputTarget, PaletteColors, Patch,
    PhysicalDmxFixture, Project, QualifiedFixtureId, RandomEffect, RenderMode, Scene, Tile, TileMap,
    Timing, TimingDetails, Transition,
};
use dmx_engine::model::{Sequence, SequenceEntry, SequenceLayer};
use dmx_engine::palette::interpolate_palettes;
use dmx_engine::random::{pick_random, window_size, RandomChoice, RandomTable, RANDOM_TABLE_SIZE};
use dmx_engine::render::{render_dmx, render_scene_dmx, render_scene_wled, render_wled, RenderError};
use dmx_engine::resolve::{get_all_qualified_ids, get_fixtures};
use dmx_engine::target::RenderTarget;
use dmx_engine::tile::{get_tile_duration_ms, tile_active_amount, tile_effect_progress};
use dmx_engine::timing::calculate_timing;
use dmx_engine::wled::WledRenderTarget;
use dmx_engine::{hello_from_rust, process_project};

const U: i64 = 1_000_000;

fn no_palette() -> PaletteColors {
    PaletteColors { primary: None, secondary: None, tertiary: None }
}

fn amount(kind: ChannelKind, index: u32) -> Channel {
    Channel { index, kind, mapping: Some(ChannelMapping::Amount { min_value: 0, max_value: 255 }) }
}

fn plain(kind: ChannelKind, index: u32) -> Channel {
    Channel { index, kind, mapping: None }
}

fn definitions(channels: Vec<Channel>) -> Vec<DmxFixtureDefinition> {
    vec![DmxFixtureDefinition {
        id: 1,
        name: "Par".to_string(),
        modes: vec![Mode { name: "m".to_string(), num_channels: channels.len() as u32, channels }],
    }]
}

fn fixture(id: u64, offset: u32) -> PhysicalDmxFixture {
    PhysicalDmxFixture {
        id,
        name: "Par 1".to_string(),
        fixture_definition_id: 1,
        fixture_mode: "m".to_string(),
        channel_offset: offset,
    }
}

fn qid(fixture: u64) -> QualifiedFixtureId {
    QualifiedFixtureId { patch: 1, output: 10, fixture }
}

fn dimmer_state(v: i64) -> FixtureState {
    let mut s = FixtureState::empty();
    s.dimmer = Some(v);
    s
}

fn static_tile(id: u64, priority: i32, strength: i64, state: FixtureState) -> TileMap {
    TileMap {
        id,
        x: 0,
        y: 0,
        priority,
        tile: Some(Tile {
            name: format!("tile {}", id),
            transition: Some(Transition::AbsoluteStrength(strength)),
            timing_details: None,
            channels: vec![EffectChannel {
                effect: Some(Effect::Static { state: Some(state) }),
                output_target: Some(OutputTarget::Fixtures(vec![qid(100)])),
            }],
        }),
    }
}

fn project(channels: Vec<Channel>, tiles: Vec<TileMap>) -> Project {
    Project {
        name: "Show".to_string(),
        patches: vec![Patch {
            id: 1,
            outputs: vec![
                Output { id: 10, output: Some(OutputKind::SerialDmx { fixtures: vec![fixture(100, 0)] }) },
                Output {
                    id: 20,
                    output: Some(OutputKind::Wled { ip_address: "10.0.0.2".to_string(), segments: vec![0, 1] }),
                },
            ],
        }],
        active_patch: 1,
        scenes: vec![Scene {
            id: 1,
            name: "Scene".to_string(),
            tile_map: tiles,
            color_palettes: vec![],
            active_color_palette: 0,
            last_active_color_palette: 0,
            color_palette_start_transition: 0,
            color_palette_transition_duration_ms: 0,
        }],
        active_scene: 1,
        groups: vec![],
        sequences: vec![],
        live_beat: Some(BeatMetadata { offset_ms: 0, length_ms: 500 }),
        fixture_definitions: Some(definitions(channels)),
        controller_mapping: None,
    }
}

fn raw_table(f: fn(usize) -> u32) -> RandomTable {
    let raw: Vec<u32> = (0..RANDOM_TABLE_SIZE).map(f).collect();
    RandomTable::from_raw(&raw)
}

#[test]
fn single_dimmer_scene() {
    let p = project(vec![amount(ChannelKind::Dimmer, 0)], vec![static_tile(1, 1, U, dimmer_state(U / 2))]);
    let table = raw_table(|_| 0);
    let universe = render_scene_dmx(&p, 10, 1_000, 0, &table).unwrap();
    assert_eq!(universe.len(), 512);
    assert!(universe[0] == 127 || universe[0] == 128);
    assert!(universe[1..].iter().all(|&b| b == 0));
}

#[test]
fn rgbw_fold_without_white_channel() {
    let defs = definitions(vec![
        plain(ChannelKind::Red, 0),
        plain(ChannelKind::Green, 1),
        plain(ChannelKind::Blue, 2),
    ]);
    let fixtures = vec![fixture(100, 0)];
    let mut target = DmxRenderTarget::new(&fixtures, &defs);
    let mut state = FixtureState::empty();
    state.light_color = Some(LightColor::Color(Color { red: 200_000, green: 400_000, blue: 600_000, white: Some(200_000) }));
    target.apply_state(&qid(100), &state, &no_palette());
    let u = target.get_universe();
    assert_eq!(&u[0..3], &[102, 153, 204]);
    assert!(u[3..].iter().all(|&b| b == 0));
}

#[test]
fn white_channel_takes_white_directly() {
    let defs = definitions(vec![
        plain(ChannelKind::Red, 0),
        plain(ChannelKind::Green, 1),
        plain(ChannelKind::Blue, 2),
        plain(ChannelKind::White, 3),
    ]);
    let fixtures = vec![fixture(100, 0)];
    let mut target = DmxRenderTarget::new(&fixtures, &defs);
    let mut state = FixtureState::empty();
    state.light_color = Some(LightColor::Color(Color { red: 200_000, green: 400_000, blue: 600_000, white: Some(200_000) }));
    target.apply_state(&qid(100), &state, &no_palette());
    assert_eq!(&target.get_universe()[0..4], &[51, 102, 153, 51]);
}

#[test]
fn cross_fade_of_two_tiles() {
    let p = project(
        vec![amount(ChannelKind::Dimmer, 0)],
        vec![static_tile(1, 1, U, dimmer_state(U)), static_tile(2, 2, U / 2, dimmer_state(0))],
    );
    let table = raw_table(|_| 0);
    let universe = render_scene_dmx(&p, 10, 1_000, 0, &table).unwrap();
    assert_eq!(universe[0], 127);
}

#[test]
fn higher_priority_draws_on_top_in_any_listing_order() {
    let p = project(
        vec![amount(ChannelKind::Dimmer, 0)],
        vec![static_tile(2, 2, U / 2, dimmer_state(0)), static_tile(1, 1, U, dimmer_state(U))],
    );
    let table = raw_table(|_| 0);
    assert_eq!(render_scene_dmx(&p, 10, 1_000, 0, &table).unwrap()[0], 127);
    let p2 = project(
        vec![amount(ChannelKind::Dimmer, 0)],
        vec![static_tile(1, 2, U, dimmer_state(U)), static_tile(2, 1, U, dimmer_state(0))],
    );
    assert_eq!(render_scene_dmx(&p2, 10, 1_000, 0, &table).unwrap()[0], 255);
}

#[test]
fn one_shot_fade_in() {
    let tile = Tile {
        name: "hit".to_string(),
        transition: Some(Transition::StartFadeInMs(10_000)),
        timing_details: Some(TimingDetails::OneShot { duration: Duration::Ms(1000) }),
        channels: vec![],
    };
    let beat = Some(BeatMetadata { offset_ms: 0, length_ms: 500 });
    assert_eq!(tile_active_amount(&tile, beat, 10_500), U);
    assert_eq!(tile_effect_progress(&tile, beat, 10_500), Some(500_000));
    assert_eq!(tile_active_amount(&tile, beat, 11_001), 0);
    assert_eq!(get_tile_duration_ms(&tile, beat), 1000);
}

#[test]
fn loop_fades_in_and_out() {
    let mut tile = Tile {
        name: "loop".to_string(),
        transition: Some(Transition::StartFadeInMs(1_000)),
        timing_details: Some(TimingDetails::Loop {
            fade_in: Some(Duration::Ms(1000)),
            fade_out: Some(Duration::Beat(2_000_000)),
        }),
        channels: vec![],
    };
    let beat = Some(BeatMetadata { offset_ms: 0, length_ms: 500 });
    assert_eq!(tile_active_amount(&tile, beat, 1_250), 250_000);
    assert_eq!(tile_active_amount(&tile, beat, 5_000), U);
    tile.transition = Some(Transition::StartFadeOutMs(2_000));
    assert_eq!(tile_active_amount(&tile, beat, 2_250), 750_000);
    assert_eq!(tile_active_amount(&tile, beat, 3_500), 0);
    assert_eq!(tile_effect_progress(&tile, beat, 2_250), None);
}

#[test]
fn beat_timing_halves_with_multiplier_two() {
    let timing = EffectTiming { timing: Some(Timing::Beat { multiplier: 2 }), phase: 0, mirrored: false, easing: Easing::Linear };
    assert_eq!(calculate_timing(&timing, 0, 1000, 400_000, 0, 1), Some(200_000));
}

#[test]
fn timing_without_mode_is_none() {
    let timing = EffectTiming { timing: None, phase: 0, mirrored: false, easing: Easing::Linear };
    assert_eq!(calculate_timing(&timing, 0, 1000, 400_000, 0, 1), None);
}

#[test]
fn easing_endpoints() {
    for easing in [Easing::Linear, Easing::EaseIn, Easing::EaseOut, Easing::EaseInOut, Easing::Sine] {
        let t = EffectTiming { timing: Some(Timing::Absolute { duration_ms: 1000 }), phase: 0, mirrored: true, easing };
        assert_eq!(calculate_timing(&t, 0, 1000, 0, 0, 1), Some(0));
        // Mirroring takes progress one half to the curve's end.
        assert_eq!(calculate_timing(&t, 500, 1000, 0, 0, 1), Some(U));
    }
    let lin = EffectTiming { timing: Some(Timing::Absolute { duration_ms: 1000 }), phase: 0, mirrored: false, easing: Easing::EaseIn };
    assert_eq!(calculate_timing(&lin, 500, 1000, 0, 0, 1), Some(125_000));
    let sine = EffectTiming { timing: Some(Timing::Absolute { duration_ms: 1000 }), phase: 0, mirrored: false, easing: Easing::Sine };
    assert_eq!(calculate_timing(&sine, 0, 1000, 0, 0, 1), Some(0));
    assert_eq!(calculate_timing(&sine, 500, 1000, 0, 0, 1), Some(U / 2));
    let quarter = calculate_timing(&sine, 250, 1000, 0, 0, 1).unwrap();
    // (1 − cos(π/4))/2 ≈ 0.1464, within the cosine form's error.
    assert!((quarter - 146_447).abs() < 2_000, "got {}", quarter);
}

#[test]
fn phase_spreads_fixtures() {
    let t = EffectTiming { timing: Some(Timing::Absolute { duration_ms: 1000 }), phase: U, mirrored: false, easing: Easing::Linear };
    assert_eq!(calculate_timing(&t, 100, 1000, 0, 1, 4), Some(350_000));
    assert_eq!(calculate_timing(&t, 900, 1000, 0, 2, 4), Some(400_000));
}

fn color(r: i64, g: i64, b: i64) -> Option<ColorDescription> {
    Some(ColorDescription { color: Some(Color { red: r, green: g, blue: b, white: None }) })
}

#[test]
fn palette_interpolation_endpoints() {
    let a = ColorPalette { name: "a".to_string(), primary: color(U, 0, 0), secondary: color(0, U, 0), tertiary: None };
    let b = ColorPalette { name: "b".to_string(), primary: color(0, 0, U), secondary: None, tertiary: color(0, 0, 0) };
    let start = interpolate_palettes(&a, &b, 0);
    assert_eq!(start.primary, a.primary);
    assert_eq!(start.secondary, a.secondary);
    assert_eq!(start.tertiary, b.tertiary);
    assert_eq!(start.name, "b");
    let end = interpolate_palettes(&a, &b, U);
    assert_eq!(end.primary, b.primary);
    let mid = interpolate_palettes(&a, &b, U / 2);
    assert_eq!(mid.primary, color(U / 2, 0, U / 2));
    // A colour held on one side only passes through, whatever the point.
    let empty = Some(ColorDescription { color: None });
    let c = ColorPalette { name: "c".to_string(), primary: empty, secondary: color(0, U, 0), tertiary: empty };
    let d = ColorPalette { name: "d".to_string(), primary: color(0, 0, U), secondary: empty, tertiary: empty };
    let cd = interpolate_palettes(&c, &d, U / 2);
    assert_eq!(cd.primary, color(0, 0, U));
    assert_eq!(cd.secondary, color(0, U, 0));
    assert_eq!(cd.tertiary, empty);
}

#[test]
fn palette_colors_resolve() {
    let pal = ColorPalette { name: "p".to_string(), primary: color(U, 0, 0), secondary: None, tertiary: None };
    let mut s = FixtureState::empty();
    s.light_color = Some(LightColor::PaletteColor(1));
    assert_eq!(s.get_color(&pal), Some(Color { red: 0, green: 0, blue: 0, white: Some(U) }));
    s.light_color = Some(LightColor::PaletteColor(2));
    assert_eq!(s.get_color(&pal), Some(Color { red: U, green: 0, blue: 0, white: None }));
    s.light_color = Some(LightColor::PaletteColor(3));
    assert_eq!(s.get_color(&pal), None);
    s.light_color = Some(LightColor::PaletteColor(7));
    assert_eq!(s.get_color(&pal), None);
}

#[test]
fn untouched_channels_stay_zero() {
    let defs = definitions(vec![amount(ChannelKind::Dimmer, 0), plain(ChannelKind::Red, 1), amount(ChannelKind::Zoom, 2)]);
    let fixtures = vec![fixture(100, 5)];
    let mut target = DmxRenderTarget::new(&fixtures, &defs);
    target.apply_state(&qid(100), &dimmer_state(U), &no_palette());
    let u = target.get_universe();
    assert_eq!(u[5], 255);
    for (i, b) in u.iter().enumerate() {
        if i != 5 {
            assert_eq!(*b, 0);
        }
    }
}

#[test]
fn interpolate_ends_and_colour_wheel() {
    let mut defs = definitions(vec![amount(ChannelKind::Dimmer, 0), Channel { index: 1, kind: ChannelKind::Other, mapping: Some(ChannelMapping::ColorWheel) }]);
    defs[0].modes[0].channels[1].kind = ChannelKind::Other;
    let fixtures = vec![fixture(100, 0)];
    let a = DmxRenderTarget::new(&fixtures, &defs);
    let mut b = DmxRenderTarget::new(&fixtures, &defs);
    b.apply_state(&qid(100), &dimmer_state(U), &no_palette());
    let mut t = DmxRenderTarget::new(&fixtures, &defs);
    t.interpolate(&a, &b, 0);
    assert_eq!(t.levels(), a.levels());
    t.interpolate(&a, &b, U);
    assert_eq!(t.levels(), b.levels());
    t.interpolate(&a, &b, 490_000);
    assert_eq!(t.levels()[0], 490_000);
}

#[test]
fn random_window_matches_the_sums() {
    let table = raw_table(|i| i as u32 * 7 + 3);
    let re = RandomEffect {
        effect_a: None,
        effect_b: None,
        effect_a_min: 10,
        effect_a_variation: 100,
        effect_b_min: 20,
        effect_b_variation: 50,
        seed: 0,
        timing_mode: None,
        treat_fixtures_individually: false,
    };
    let half = (RANDOM_TABLE_SIZE / 2) as u64;
    let scaled = table.even_sum * 100 + table.odd_sum * 50 + 4096 * half * (10 + 20);
    assert_eq!(window_size(&table, &re), scaled / 4096);
}

#[test]
fn random_choice_is_deterministic() {
    let table = raw_table(|_| 0);
    let re = RandomEffect {
        effect_a: None,
        effect_b: None,
        effect_a_min: 10,
        effect_a_variation: 0,
        effect_b_min: 20,
        effect_b_variation: 0,
        seed: 0,
        timing_mode: None,
        treat_fixtures_individually: false,
    };
    let first = pick_random(&table, &re, 15, 0);
    assert_eq!(first, pick_random(&table, &re, 15, 0));
    assert_eq!(first, Some(RandomChoice { use_b: true, sub_effect_t: 1_073_741_823 }));
    assert_eq!(pick_random(&table, &re, 5, 0), Some(RandomChoice { use_b: false, sub_effect_t: 2_147_483_647 }));
}

#[test]
fn drawn_table_is_well_formed() {
    let table = RandomTable::generate();
    assert_eq!(table.numbers.len(), RANDOM_TABLE_SIZE);
    assert!(table.numbers.iter().all(|&n| n < 4096));
    let even: u64 = table.numbers.iter().step_by(2).sum();
    let odd: u64 = table.numbers.iter().skip(1).step_by(2).sum();
    assert_eq!(table.even_sum, even);
    assert_eq!(table.odd_sum, odd);
    // Sixteen thousand draws of twelve bits are not all equal.
    assert!(table.numbers.iter().any(|&n| n != table.numbers[0]));
}

#[test]
fn render_errors() {
    let table = raw_table(|_| 0);
    let p = project(vec![amount(ChannelKind::Dimmer, 0)], vec![]);
    assert_eq!(render_scene_dmx(&p, 99, 0, 0, &table), Err(RenderError::OutputNotFound { output_id: 99, patch: 1 }));
    assert_eq!(render_scene_dmx(&p, 20, 0, 0, &table), Err(RenderError::NotDmx));
    assert!(matches!(render_scene_wled(&p, 10, 0, 0, &table), Err(RenderError::NotWled)));
    let mut q = project(vec![], vec![]);
    q.fixture_definitions = None;
    assert_eq!(render_scene_dmx(&q, 10, 0, 0, &table), Err(RenderError::MissingFixtureDefinitions));
    let mut q = project(vec![], vec![]);
    q.active_scene = 9;
    assert_eq!(render_scene_dmx(&q, 10, 0, 0, &table), Err(RenderError::SceneNotFound(9)));
    let mut q = project(vec![], vec![]);
    q.live_beat = None;
    assert_eq!(render_scene_dmx(&q, 10, 0, 0, &table), Err(RenderError::LiveBeatMissing));
    assert_eq!(render_dmx(&p, Some(RenderMode::Show), &table, 10, 0, 0), Err(RenderError::ShowUnsupported));
}

#[test]
fn render_modes() {
    let table = raw_table(|_| 0);
    let p = project(vec![amount(ChannelKind::Dimmer, 0)], vec![static_tile(1, 1, U, dimmer_state(U))]);
    assert_eq!(render_dmx(&p, Some(RenderMode::Blackout), &table, 10, 0, 0).unwrap()[0], 0);
    assert_eq!(render_dmx(&p, Some(RenderMode::Scene { scene_id: 1 }), &table, 10, 0, 0).unwrap()[0], 255);
    assert_eq!(render_dmx(&p, Some(RenderMode::Scene { scene_id: 5 }), &table, 10, 0, 0), Err(RenderError::SceneNotFound(5)));
    let w = render_wled(&p, Some(RenderMode::Blackout), &table, 20, 0, 0).unwrap();
    assert_eq!(w.segments.len(), 2);
    assert_eq!(w.segments[0].brightness, U);
}

#[test]
fn wled_scene_sets_brightness() {
    let table = raw_table(|_| 0);
    let mut tile = static_tile(1, 1, U, dimmer_state(U / 4));
    tile.tile.as_mut().unwrap().channels[0].output_target =
        Some(OutputTarget::Fixtures(vec![QualifiedFixtureId { patch: 1, output: 20, fixture: 1 }]));
    let p = project(vec![], vec![tile]);
    let w: WledRenderTarget = render_scene_wled(&p, 20, 0, 0, &table).unwrap();
    assert_eq!(w.segments[0].brightness, U);
    assert_eq!(w.segments[1].brightness, U / 4);
}

#[test]
fn group_resolution() {
    let mut p = project(vec![], vec![]);
    p.groups = vec![
        Group { id: 1, targets: vec![OutputTarget::Fixtures(vec![qid(100), QualifiedFixtureId { patch: 2, output: 1, fixture: 1 }]), OutputTarget::Group(2)] },
        Group { id: 2, targets: vec![OutputTarget::Fixtures(vec![qid(101)]), OutputTarget::Group(1)] },
    ];
    assert_eq!(get_fixtures(&p, &OutputTarget::Group(1)), vec![qid(100), qid(101)]);
    let all = get_all_qualified_ids(&p);
    assert_eq!(all, vec![qid(100), QualifiedFixtureId { patch: 1, output: 20, fixture: 0 }, QualifiedFixtureId { patch: 1, output: 20, fixture: 1 }]);
    assert_eq!(get_fixtures(&p, &OutputTarget::Group(0)), all);
    assert_eq!(get_fixtures(&p, &OutputTarget::Fixtures(vec![QualifiedFixtureId { patch: 2, output: 1, fixture: 1 }, qid(7), qid(8)])), vec![qid(7), qid(8)]);
}

#[test]
fn static_state_through_a_group() {
    let mut p = project(vec![amount(ChannelKind::Dimmer, 0)], vec![]);
    p.groups = vec![Group { id: 3, targets: vec![OutputTarget::Fixtures(vec![qid(100)])] }];
    let defs = p.fixture_definitions.clone().unwrap();
    let fixtures = vec![fixture(100, 0)];
    let mut target = DmxRenderTarget::new(&fixtures, &defs);
    apply_state(&p, &mut target, &OutputTarget::Group(3), &dimmer_state(U), &no_palette());
    assert_eq!(target.get_universe()[0], 255);
}

#[test]
fn control_facade() {
    let mut p = project(vec![], vec![static_tile(1, 1, U, dimmer_state(U))]);
    let scene = &mut p.scenes[0];
    let info = enable_tile(scene, 1, 42).unwrap();
    assert!(info.enabled);
    assert_eq!(info.amount, U);
    assert_eq!(scene.tile_map[0].tile.as_ref().unwrap().transition, Some(Transition::StartFadeInMs(42)));
    let info = disable_tile(scene, 1, 43).unwrap();
    assert!(!info.enabled);
    assert_eq!(set_tile_amount(scene, 1, U + 1).unwrap_err(), ControlError::InvalidAmount);
    let info = set_tile_amount(scene, 1, 50_000).unwrap();
    assert!(!info.enabled);
    assert_eq!(info.amount, 50_000);
    assert_eq!(enable_tile(scene, 9, 0).unwrap_err(), ControlError::TileNotFound(9));
    scene.tile_map.push(TileMap { id: 5, x: 0, y: 0, priority: 0, tile: None });
    assert_eq!(enable_tile(scene, 5, 0).unwrap_err(), ControlError::TileDataMissing);
    let tiles = list_tiles(&p).unwrap();
    assert_eq!(tiles.len(), 1);
    assert_eq!(tiles[0].name, "tile 1");
    p.active_scene = 4;
    assert_eq!(list_tiles(&p).unwrap_err(), ControlError::SceneNotFound);
}

#[test]
fn greetings() {
    assert_eq!(hello_from_rust("Ana"), "Hello from Rust, Ana! The DMX engine is running.");
    let p = project(vec![], vec![]);
    assert_eq!(process_project(&p), Ok("Successfully received project: Show".to_string()));
}

fn effect_tile(effect: Effect) -> TileMap {
    TileMap {
        id: 1,
        x: 0,
        y: 0,
        priority: 1,
        tile: Some(Tile {
            name: "fx".to_string(),
            transition: Some(Transition::AbsoluteStrength(U)),
            timing_details: None,
            channels: vec![EffectChannel { effect: Some(effect), output_target: Some(OutputTarget::Fixtures(vec![qid(100)])) }],
        }),
    }
}

fn linear(duration_ms: u64) -> EffectTiming {
    EffectTiming { timing: Some(Timing::Absolute { duration_ms }), phase: 0, mirrored: false, easing: Easing::Linear }
}

#[test]
fn strobe_alternates_by_frame() {
    let table = raw_table(|_| 0);
    let strobe = Effect::Strobe { state_a: Some(dimmer_state(U)), state_b: Some(dimmer_state(0)), state_a_frames: 2, state_b_frames: 1 };
    let p = project(vec![amount(ChannelKind::Dimmer, 0)], vec![effect_tile(strobe)]);
    assert_eq!(render_scene_dmx(&p, 10, 0, 0, &table).unwrap()[0], 255);
    assert_eq!(render_scene_dmx(&p, 10, 0, 1, &table).unwrap()[0], 255);
    assert_eq!(render_scene_dmx(&p, 10, 0, 2, &table).unwrap()[0], 0);
    assert_eq!(render_scene_dmx(&p, 10, 0, 3, &table).unwrap()[0], 255);
}

#[test]
fn ramp_follows_progress() {
    let table = raw_table(|_| 0);
    let ramp = Effect::Ramp { state_start: Some(dimmer_state(0)), state_end: Some(dimmer_state(U)), timing_mode: Some(linear(1000)) };
    let p = project(vec![amount(ChannelKind::Dimmer, 0)], vec![effect_tile(ramp)]);
    assert_eq!(render_scene_dmx(&p, 10, 250, 0, &table).unwrap()[0], 63);
    assert_eq!(render_scene_dmx(&p, 10, 1500, 0, &table).unwrap()[0], 127);
}

#[test]
fn random_effect_picks_windows() {
    let table = raw_table(|_| 0);
    let random = Effect::Random(RandomEffect {
        effect_a: Some(Box::new(Effect::Static { state: Some(dimmer_state(U)) })),
        effect_b: Some(Box::new(Effect::Static { state: Some(dimmer_state(0)) })),
        effect_a_min: 10,
        effect_a_variation: 0,
        effect_b_min: 20,
        effect_b_variation: 0,
        seed: 0,
        timing_mode: None,
        treat_fixtures_individually: true,
    });
    let p = project(vec![amount(ChannelKind::Dimmer, 0)], vec![effect_tile(random)]);
    assert_eq!(render_scene_dmx(&p, 10, 5, 0, &table).unwrap()[0], 255);
    assert_eq!(render_scene_dmx(&p, 10, 15, 0, &table).unwrap()[0], 0);
}

#[test]
fn sequence_runs_the_active_entry() {
    let table = raw_table(|_| 0);
    let seq = Effect::Sequence { sequence_id: 7, timing_mode: Some(linear(1000)) };
    let mut p = project(vec![amount(ChannelKind::Dimmer, 0)], vec![effect_tile(seq)]);
    p.sequences = vec![Sequence {
        id: 7,
        native_beats: 1,
        layers: vec![SequenceLayer {
            effects: vec![
                SequenceEntry { start_ms: 0, end_ms: 3600, effect: Some(Effect::Static { state: Some(dimmer_state(U)) }) },
                SequenceEntry { start_ms: 3600, end_ms: 7200, effect: Some(Effect::Static { state: Some(dimmer_state(U / 2)) }) },
            ],
        }],
    }];
    assert_eq!(render_scene_dmx(&p, 10, 250, 0, &table).unwrap()[0], 255);
    assert_eq!(render_scene_dmx(&p, 10, 750, 0, &table).unwrap()[0], 127);
    p.sequences.clear();
    assert_eq!(render_scene_dmx(&p, 10, 750, 0, &table).unwrap()[0], 0);
}

fn two_fixture_project(effect: Effect) -> Project {
    let mut tile = effect_tile(effect);
    tile.tile.as_mut().unwrap().channels[0].output_target = Some(OutputTarget::Fixtures(vec![qid(100), qid(101)]));
    let mut p = project(vec![amount(ChannelKind::Dimmer, 0)], vec![tile]);
    p.patches[0].outputs[0].output = Some(OutputKind::SerialDmx { fixtures: vec![fixture(100, 0), fixture(101, 1)] });
    p
}

#[test]
fn fixture_list_targets() {
    let table = raw_table(|_| 0);
    // A static state goes to the first listed fixture only.
    let p = two_fixture_project(Effect::Static { state: Some(dimmer_state(U)) });
    let u = render_scene_dmx(&p, 10, 250, 0, &table).unwrap();
    assert_eq!(&u[0..2], &[255, 0]);
    // A ramp runs over every listed fixture, each at its own phase.
    let mut timing = linear(1000);
    timing.phase = U / 2;
    let ramp = Effect::Ramp { state_start: Some(dimmer_state(0)), state_end: Some(dimmer_state(U)), timing_mode: Some(timing) };
    let p = two_fixture_project(ramp);
    let u = render_scene_dmx(&p, 10, 250, 0, &table).unwrap();
    assert_eq!(&u[0..2], &[63, 127]);
}

#[test]
fn random_pick_first_sum_past_the_point() {
    // Windows of width 1/4096 ms and 1 ms alternate; at point 0 the first
    // window's end (1/4096) already lies past it.
    let table = raw_table(|_| 1);
    let re = RandomEffect {
        effect_a: None,
        effect_b: None,
        effect_a_min: 0,
        effect_a_variation: 1,
        effect_b_min: 1,
        effect_b_variation: 0,
        seed: 0,
        timing_mode: None,
        treat_fixtures_individually: false,
    };
    assert_eq!(window_size(&table, &re), 8194);
    assert_eq!(pick_random(&table, &re, 0, 0), Some(RandomChoice { use_b: false, sub_effect_t: 0 }));
}

#[test]
fn whole_patch_ids_sorted_and_unique() {
    let mut p = project(vec![], vec![]);
    p.patches[0].outputs.swap(0, 1);
    p.patches[0].outputs[1].output =
        Some(OutputKind::SerialDmx { fixtures: vec![fixture(7, 0), fixture(5, 0), fixture(7, 3)] });
    let ids = get_all_qualified_ids(&p);
    assert_eq!(
        ids,
        vec![
            QualifiedFixtureId { patch: 1, output: 10, fixture: 5 },
            QualifiedFixtureId { patch: 1, output: 10, fixture: 7 },
            QualifiedFixtureId { patch: 1, output: 20, fixture: 0 },
            QualifiedFixtureId { patch: 1, output: 20, fixture: 1 },
        ]
    );
    assert_eq!(get_fixtures(&p, &OutputTarget::Group(0)), ids);
}

#[test]
fn one_shot_ramp_runs_on_the_tile_clock() {
    let table = raw_table(|_| 0);
    let ramp = Effect::Ramp {
        state_start: Some(dimmer_state(0)),
        state_end: Some(dimmer_state(U)),
        timing_mode: Some(EffectTiming { timing: Some(Timing::OneShot), phase: 0, mirrored: false, easing: Easing::Linear }),
    };
    let mut tile = effect_tile(ramp);
    let t = tile.tile.as_mut().unwrap();
    t.transition = Some(Transition::StartFadeInMs(10_000));
    t.timing_details = Some(TimingDetails::OneShot { duration: Duration::Ms(1000) });
    let p = project(vec![amount(ChannelKind::Dimmer, 0)], vec![tile]);
    let mid = render_scene_dmx(&p, 10, 10_500, 0, &table).unwrap();
    assert!(mid[0] == 127 || mid[0] == 128);
    let after = render_scene_dmx(&p, 10, 11_001, 0, &table).unwrap();
    assert_eq!(after[0], 0);
}
