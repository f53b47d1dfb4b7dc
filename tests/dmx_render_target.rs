use dmx_engine::dmx::DmxRenderTarget;
use dmx_engine::model::{
    Channel, ChannelKind, ChannelMapping, DmxFixtureDefinition, FixtureState, Mode, PaletteColors,
    PhysicalDmxFixture, QualifiedFixtureId,
};
use dmx_engine::target::RenderTarget;

fn no_palette() -> PaletteColors {
    PaletteColors { primary: None, secondary: None, tertiary: None }
}

#[test]
fn test_dimmer_channel_updates() {
    // A fixture definition with a single dimmer channel.
    let mode = Mode {
        name: "test-mode".to_string(),
        num_channels: 1,
        channels: vec![Channel {
            index: 0,
            kind: ChannelKind::Dimmer,
            mapping: Some(ChannelMapping::Amount { min_value: 0, max_value: 255 }),
        }],
    };
    let fixture_definitions = vec![DmxFixtureDefinition {
        id: 1,
        name: "Test Fixture".to_string(),
        modes: vec![mode],
    }];
    let fixtures = vec![PhysicalDmxFixture {
        id: 100,
        name: "Test Fixture 1".to_string(),
        fixture_definition_id: 1,
        fixture_mode: "test-mode".to_string(),
        channel_offset: 0,
    }];

    let mut render_target = DmxRenderTarget::new(&fixtures, &fixture_definitions);

    let mut state = FixtureState::empty();
    state.dimmer = Some(500_000);

    let qualified_id = QualifiedFixtureId { patch: 0, output: 123, fixture: 100 };
    render_target.apply_state(&qualified_id, &state, &no_palette());

    let universe = render_target.get_universe();
    assert_eq!(universe.len(), 512);
    assert!(
        universe[0] >= 127 && universe[0] <= 128,
        "Expected dimmer at ~127-128, got {}",
        universe[0]
    );
    for i in 1..512 {
        assert_eq!(universe[i], 0, "Channel {} should be 0", i);
    }
}

#[test]
fn test_pan_tilt_channel_updates() {
    // A moving head: pan over 540 degrees, tilt over 270.
    let mode = Mode {
        name: "test-mode".to_string(),
        num_channels: 2,
        channels: vec![
            Channel {
                index: 0,
                kind: ChannelKind::Pan,
                mapping: Some(ChannelMapping::Angle { min_degrees: 0, max_degrees: 540 }),
            },
            Channel {
                index: 1,
                kind: ChannelKind::Tilt,
                mapping: Some(ChannelMapping::Angle { min_degrees: 0, max_degrees: 270 }),
            },
        ],
    };
    let fixture_definitions = vec![DmxFixtureDefinition {
        id: 1,
        name: "Test Moving Head".to_string(),
        modes: vec![mode],
    }];
    let fixtures = vec![PhysicalDmxFixture {
        id: 100,
        name: "Test Moving Head 1".to_string(),
        fixture_definition_id: 1,
        fixture_mode: "test-mode".to_string(),
        channel_offset: 10,
    }];

    let mut render_target = DmxRenderTarget::new(&fixtures, &fixture_definitions);

    let mut state = FixtureState::empty();
    state.pan = Some(270 * 1_000_000);
    state.tilt = Some(135 * 1_000_000);

    let qualified_id = QualifiedFixtureId { patch: 0, output: 123, fixture: 100 };
    render_target.apply_state(&qualified_id, &state, &no_palette());

    let universe = render_target.get_universe();
    assert!(
        universe[10] >= 127 && universe[10] <= 128,
        "Expected pan at ~127-128, got {}",
        universe[10]
    );
    assert!(
        universe[11] >= 127 && universe[11] <= 128,
        "Expected tilt at ~127-128, got {}",
        universe[11]
    );
    for i in 0..10 {
        assert_eq!(universe[i], 0, "Channel {} should be 0", i);
    }
    for i in 12..512 {
        assert_eq!(universe[i], 0, "Channel {} should be 0", i);
    }
}
