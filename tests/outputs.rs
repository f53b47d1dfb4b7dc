use dmx_engine::midi::{calculate_midi_output, output_value, parse_channel_address};
use dmx_engine::model::{
    Action, BeatMetadata, Controller, ControllerAction, ControllerMapping, Output, OutputKind, Patch, Project,
    SceneAction, SceneMappingEntry,
};
use dmx_engine::output::{desired_outputs, next_frame, plan_rebuild, sacn_payload, serial_frame, sleep_ms, target_fps, OutputType};
use dmx_engine::wled::{segment_bytes, Segment, SegmentColor};

fn project() -> Project {
    Project {
        name: "Show".to_string(),
        patches: vec![Patch {
            id: 1,
            outputs: vec![
                Output { id: 1, output: Some(OutputKind::SerialDmx { fixtures: vec![] }) },
                Output { id: 2, output: Some(OutputKind::SacnDmx { universe: 70_001, ip_address: "10.0.0.9".to_string(), fixtures: vec![] }) },
                Output { id: 3, output: None },
                Output { id: 4, output: Some(OutputKind::Wled { ip_address: "10.0.0.4".to_string(), segments: vec![0] }) },
            ],
        }],
        active_patch: 1,
        scenes: vec![],
        active_scene: 1,
        groups: vec![],
        sequences: vec![],
        live_beat: Some(BeatMetadata { offset_ms: 0, length_ms: 500 }),
        fixture_definitions: None,
        controller_mapping: None,
    }
}

#[test]
fn desired_loops_of_the_active_patch() {
    let d = desired_outputs(&project()).unwrap();
    assert_eq!(d.len(), 3);
    assert!(d[0] == (1, OutputType::Serial));
    assert!(d[1] == (2, OutputType::Sacn { universe: 4465, ip_address: "10.0.0.9".to_string() }));
    assert!(d[2] == (4, OutputType::Wled { ip_address: "10.0.0.4".to_string() }));
    let mut p = project();
    p.active_patch = 5;
    assert!(desired_outputs(&p).is_none());
}

#[test]
fn rebuild_keeps_unchanged_loops() {
    let current = vec![
        (1, OutputType::Serial),
        (2, OutputType::Sacn { universe: 1, ip_address: "a".to_string() }),
        (3, OutputType::Wled { ip_address: "w".to_string() }),
    ];
    let desired = vec![
        (1, OutputType::Serial),
        (2, OutputType::Sacn { universe: 2, ip_address: "a".to_string() }),
        (4, OutputType::Serial),
    ];
    let (stop, start) = plan_rebuild(&current, &desired);
    assert_eq!(stop, vec![2, 3]);
    assert_eq!(start.len(), 2);
    assert!(start[0] == (2, OutputType::Sacn { universe: 2, ip_address: "a".to_string() }));
    assert!(start[1] == (4, OutputType::Serial));
}

#[test]
fn loop_timing() {
    assert_eq!(target_fps(&OutputType::Serial), 30);
    assert_eq!(target_fps(&OutputType::Sacn { universe: 1, ip_address: String::new() }), 100);
    assert_eq!(target_fps(&OutputType::Wled { ip_address: String::new() }), 30);
    assert_eq!(sleep_ms(3, 30), 30);
    assert_eq!(sleep_ms(40, 30), 0);
    assert_eq!(next_frame(7), 8);
    assert_eq!(next_frame(u32::MAX), 0);
}

#[test]
fn transport_framing() {
    assert_eq!(sacn_payload(&vec![5, 6]), vec![0, 5, 6]);
    let f = serial_frame(&vec![9; 600]);
    assert_eq!(f.len(), 512);
    assert!(f.iter().all(|&b| b == 9));
    let g = serial_frame(&vec![1, 2]);
    assert_eq!(&g[0..3], &[1, 2, 0]);
    assert_eq!(g.len(), 512);
}

#[test]
fn wled_segment_bytes() {
    let s = Segment {
        effect: 70_000,
        palette: 3,
        primary_color: Some(SegmentColor { red: 1_000_000, green: 500_000, blue: -4 }),
        speed: 2_000_000,
        brightness: 250_000,
    };
    let b = segment_bytes(2, &s);
    assert_eq!((b.id, b.red, b.green, b.blue), (2, 255, 127, 0));
    assert_eq!((b.fx, b.pal, b.sx, b.bri), (4464, 3, 255, 63));
}

#[test]
fn midi_values() {
    let mut p = project();
    p.controller_mapping = Some(ControllerMapping {
        controllers: vec![Controller {
            name: "pad".to_string(),
            actions: vec![
                ControllerAction { channel: "176, 1".to_string(), action: Some(Action::BeatMatch) },
                ControllerAction { channel: "176, 2".to_string(), action: Some(Action::FirstBeat) },
                ControllerAction { channel: "176, 3".to_string(), action: Some(Action::SetTempo) },
                ControllerAction {
                    channel: "176, 4".to_string(),
                    action: Some(Action::SceneMapping {
                        actions: vec![SceneMappingEntry { scene_id: 1, action: Some(SceneAction::ColorPaletteId(3)) }],
                    }),
                },
                ControllerAction { channel: "176, 5".to_string(), action: None },
            ],
        }],
        last_controller_name: "pad".to_string(),
    });
    // 100 ms into a 500 ms beat: first half of the beat and of the bar.
    let out = calculate_midi_output(&p, &"pad".to_string(), 100);
    let values: Vec<i64> = out.iter().map(|(_, v)| *v).collect();
    assert_eq!(out[0].0, "176, 1");
    assert_eq!(values, vec![1_000_000, 1_000_000, 314_960, 1_000_000, 0]);
    // 1,300 ms: second half of the third beat.
    let later: Vec<i64> = calculate_midi_output(&p, &"pad".to_string(), 1_300).iter().map(|(_, v)| *v).collect();
    assert_eq!(&later[0..2], &[0, 0]);
    assert!(calculate_midi_output(&p, &String::new(), 100).is_empty());
    assert!(calculate_midi_output(&p, &"other".to_string(), 100).is_empty());
}

#[test]
fn midi_messages() {
    assert_eq!(output_value((176, 7), 1_000_000), vec![(176, 7, 127)]);
    assert_eq!(output_value((20, 7), 500_000), vec![(20, 7, 64), (20, 39, 63)]);
    assert_eq!(output_value((20, 7), -3), vec![(20, 7, 0), (20, 39, 0)]);
}

#[test]
fn channel_addresses() {
    assert_eq!(parse_channel_address("176, 1"), Some((176, 1)));
    assert_eq!(parse_channel_address("+7, 045"), Some((7, 45)));
    assert_eq!(parse_channel_address("12, 34, 56"), Some((12, 34)));
    assert_eq!(parse_channel_address("7, 300"), None);
    assert_eq!(parse_channel_address("1,2"), None);
    assert_eq!(parse_channel_address("a, 2"), None);
    assert_eq!(parse_channel_address(""), None);
}
