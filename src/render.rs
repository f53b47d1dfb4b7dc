//! Frames for outputs: a DMX universe or a set of WLED segments, for the
//! active scene or for the current render mode.

use vstd::prelude::*;

use crate::dmx::{DmxRenderTarget, DmxView, UNIVERSE_SIZE};
use crate::fixed::level_to_byte;
use crate::lookup::{find_index, first_index, lemma_first_index_valid};
use crate::model::{
    Color, DmxFixtureDefinition, FixtureState, LightColor, OutputKind, OutputTarget,
    PaletteColors, PhysicalDmxFixture, Project, QualifiedFixtureId, RenderMode, Scene,
};
use crate::random::RandomTable;
use crate::resolve::{get_fixtures, target_fixtures};
use crate::scene::{frame_of, render_scene, scene_result};
use crate::target::RenderTarget;
use crate::wled::{default_segment, WledRenderTarget, WledView};

verus! {

/// Why a frame could not be rendered.
#[derive(Clone, Copy, Debug, PartialEq, Eq, Structural)]
pub enum RenderError {
    /// The active patch has no output of this id, or the output drives nothing.
    OutputNotFound { output_id: u64, patch: u64 },
    /// DMX was asked of an output that is not DMX.
    NotDmx,
    /// WLED was asked of an output that is not WLED.
    NotWled,
    /// The project holds no fixture definitions.
    MissingFixtureDefinitions,
    /// The scene asked for does not exist.
    SceneNotFound(u64),
    /// The project has no beat clock.
    LiveBeatMissing,
    /// Shows are not rendered.
    ShowUnsupported,
}

/// What output `output_id` of the active patch drives, if it exists.
pub open spec fn active_output(project: Project, output_id: u64) -> Option<OutputKind> {
    match first_index(project.patches@, project.active_patch) {
        Some(p) => match first_index(project.patches@[p].outputs@, output_id) {
            Some(o) => project.patches@[p].outputs@[o].output,
            None => None,
        },
        None => None,
    }
}

/// The DMX output `output_id` of the active patch, with its fixtures; or the
/// error for a missing or a WLED output.
pub open spec fn dmx_output(project: Project, output_id: u64) -> Result<Seq<PhysicalDmxFixture>, RenderError> {
    match active_output(project, output_id) {
        Some(OutputKind::SerialDmx { fixtures }) => Ok(fixtures@),
        Some(OutputKind::SacnDmx { universe, ip_address, fixtures }) => Ok(fixtures@),
        Some(OutputKind::Wled { ip_address, segments }) => Err(RenderError::NotDmx),
        None => Err(RenderError::OutputNotFound { output_id, patch: project.active_patch }),
    }
}

/// A universe of zeros for the given fixtures.
pub open spec fn empty_dmx(fixtures: Seq<PhysicalDmxFixture>, defs: Seq<DmxFixtureDefinition>) -> DmxView {
    DmxView { universe: Seq::new(UNIVERSE_SIZE as nat, |i: int| 0i64), fixtures, definitions: defs }
}

/// The universe of the active scene on DMX output `output_id` at `system_t`,
/// or why there is none: a missing output, a WLED output, no fixture
/// definitions, a missing scene, no beat clock, checked in that order.
pub open spec fn scene_dmx_outcome(
    project: &Project,
    table: &RandomTable,
    output_id: u64,
    system_t: u64,
    frame: u32,
) -> Result<Seq<i64>, RenderError> {
    match dmx_output(*project, output_id) {
        Err(e) => Err(e),
        Ok(fixtures) => match project.fixture_definitions {
            None => Err(RenderError::MissingFixtureDefinitions),
            Some(defs) => match first_index(project.scenes@, project.active_scene) {
                None => Err(RenderError::SceneNotFound(project.active_scene)),
                Some(si) => match project.live_beat {
                    None => Err(RenderError::LiveBeatMissing),
                    Some(beat) => Ok(
                        scene_result::<DmxRenderTarget>(
                            frame_of(project, table, project.scenes@[si], beat, system_t, frame),
                            empty_dmx(fixtures, defs@),
                            project.scenes@[si],
                            Some(beat),
                            system_t,
                        ).universe,
                    ),
                },
            },
        },
    }
}

/// Bytes that are the universe `u` quantised slot by slot.
pub open spec fn bytes_of(b: Seq<u8>, u: Seq<i64>) -> bool {
    &&& b.len() == u.len()
    &&& forall|i: int| 0 <= i < b.len() ==> b[i] as int == level_to_byte(u[i] as int)
}

/// The outcome of an exec result against its spec.
pub open spec fn dmx_result_matches(r: Result<[u8; UNIVERSE_SIZE], RenderError>, o: Result<Seq<i64>, RenderError>) -> bool {
    match (r, o) {
        (Ok(b), Ok(u)) => bytes_of(b@, u),
        (Err(e), Err(f)) => e == f,
        _ => false,
    }
}

fn find_dmx_output<'p>(project: &'p Project, output_id: u64) -> (r: Result<&'p Vec<PhysicalDmxFixture>, RenderError>)
    ensures
        match (r, dmx_output(*project, output_id)) {
            (Ok(f), Ok(g)) => f@ == g,
            (Err(e), Err(f)) => e == f,
            _ => false,
        },
{
    proof {
        lemma_first_index_valid(project.patches@, project.active_patch);
    }
    let not_found = RenderError::OutputNotFound { output_id, patch: project.active_patch };
    let p = match find_index(&project.patches, project.active_patch) {
        Some(p) => p,
        None => return Err(not_found),
    };
    let outs = &project.patches[p].outputs;
    proof {
        lemma_first_index_valid(outs@, output_id);
    }
    let o = match find_index(outs, output_id) {
        Some(o) => o,
        None => return Err(not_found),
    };
    match &outs[o].output {
        Some(OutputKind::SerialDmx { fixtures }) => Ok(fixtures),
        Some(OutputKind::SacnDmx { fixtures, .. }) => Ok(fixtures),
        Some(OutputKind::Wled { .. }) => Err(RenderError::NotDmx),
        None => Err(not_found),
    }
}

/// The active scene rendered for DMX output `output_id` at `system_t`, as the
/// bytes of its universe.
pub fn render_scene_dmx(
    project: &Project,
    output_id: u64,
    system_t: u64,
    frame: u32,
    table: &RandomTable,
) -> (r: Result<[u8; UNIVERSE_SIZE], RenderError>)
    requires
        table.wf(),
    ensures
        dmx_result_matches(r, scene_dmx_outcome(project, table, output_id, system_t, frame)),
{
    let fixtures = match find_dmx_output(project, output_id) {
        Ok(f) => f,
        Err(e) => return Err(e),
    };
    let defs = match &project.fixture_definitions {
        Some(d) => d,
        None => return Err(RenderError::MissingFixtureDefinitions),
    };
    proof {
        lemma_first_index_valid(project.scenes@, project.active_scene);
    }
    let si = match find_index(&project.scenes, project.active_scene) {
        Some(si) => si,
        None => return Err(RenderError::SceneNotFound(project.active_scene)),
    };
    let beat = match project.live_beat {
        Some(b) => b,
        None => return Err(RenderError::LiveBeatMissing),
    };
    let mut target = DmxRenderTarget::new(fixtures, defs);
    assert(target@ == empty_dmx(fixtures@, defs@));
    render_scene(&project.scenes[si], &mut target, system_t, frame, &beat, project, table);
    Ok(target.get_universe())
}

/// The number of segments of a WLED output, or the error for a missing or a
/// DMX output.
pub open spec fn wled_output(project: Project, output_id: u64) -> Result<nat, RenderError> {
    match active_output(project, output_id) {
        Some(OutputKind::Wled { ip_address, segments }) => Ok(segments@.len()),
        Some(_) => Err(RenderError::NotWled),
        None => Err(RenderError::OutputNotFound { output_id, patch: project.active_patch }),
    }
}

/// Fresh segments for WLED output `id`.
pub open spec fn empty_wled(id: u64, n: nat) -> WledView {
    WledView { id, segments: Seq::new(n, |i: int| default_segment()) }
}

/// The segments of the active scene on WLED output `output_id` at
/// `system_t`, or why there are none: a missing output, a DMX output, a
/// missing scene, no beat clock, checked in that order.
pub open spec fn scene_wled_outcome(
    project: &Project,
    table: &RandomTable,
    output_id: u64,
    system_t: u64,
    frame: u32,
) -> Result<WledView, RenderError> {
    match wled_output(*project, output_id) {
        Err(e) => Err(e),
        Ok(n) => match first_index(project.scenes@, project.active_scene) {
            None => Err(RenderError::SceneNotFound(project.active_scene)),
            Some(si) => match project.live_beat {
                None => Err(RenderError::LiveBeatMissing),
                Some(beat) => Ok(
                    scene_result::<WledRenderTarget>(
                        frame_of(project, table, project.scenes@[si], beat, system_t, frame),
                        empty_wled(output_id, n),
                        project.scenes@[si],
                        Some(beat),
                        system_t,
                    ),
                ),
            },
        },
    }
}

fn find_wled_output(project: &Project, output_id: u64) -> (r: Result<usize, RenderError>)
    ensures
        match (r, wled_output(*project, output_id)) {
            (Ok(n), Ok(m)) => n == m,
            (Err(e), Err(f)) => e == f,
            _ => false,
        },
{
    proof {
        lemma_first_index_valid(project.patches@, project.active_patch);
    }
    let not_found = RenderError::OutputNotFound { output_id, patch: project.active_patch };
    let p = match find_index(&project.patches, project.active_patch) {
        Some(p) => p,
        None => return Err(not_found),
    };
    let outs = &project.patches[p].outputs;
    proof {
        lemma_first_index_valid(outs@, output_id);
    }
    let o = match find_index(outs, output_id) {
        Some(o) => o,
        None => return Err(not_found),
    };
    match &outs[o].output {
        Some(OutputKind::Wled { segments, .. }) => Ok(segments.len()),
        Some(_) => Err(RenderError::NotWled),
        None => Err(not_found),
    }
}

/// The active scene rendered for WLED output `output_id` at `system_t`.
pub fn render_scene_wled(
    project: &Project,
    output_id: u64,
    system_t: u64,
    frame: u32,
    table: &RandomTable,
) -> (r: Result<WledRenderTarget, RenderError>)
    requires
        table.wf(),
    ensures
        match (r, scene_wled_outcome(project, table, output_id, system_t, frame)) {
            (Ok(t), Ok(v)) => t@ == v,
            (Err(e), Err(f)) => e == f,
            _ => false,
        },
{
    let n = match find_wled_output(project, output_id) {
        Ok(n) => n,
        Err(e) => return Err(e),
    };
    let mut target = WledRenderTarget::new(output_id, n);
    proof {
        lemma_first_index_valid(project.scenes@, project.active_scene);
    }
    let si = match find_index(&project.scenes, project.active_scene) {
        Some(si) => si,
        None => return Err(RenderError::SceneNotFound(project.active_scene)),
    };
    let beat = match project.live_beat {
        Some(b) => b,
        None => return Err(RenderError::LiveBeatMissing),
    };
    assert(target@ == empty_wled(output_id, n as nat));
    render_scene(&project.scenes[si], &mut target, system_t, frame, &beat, project, table);
    Ok(target)
}

// ---------------------------------------------------------------- live

/// The serial DMX output `output_id` of the active patch, or the error for a
/// missing output or one of another kind.
pub open spec fn serial_output(project: Project, output_id: u64) -> Result<Seq<PhysicalDmxFixture>, RenderError> {
    match active_output(project, output_id) {
        Some(OutputKind::SerialDmx { fixtures }) => Ok(fixtures@),
        Some(_) => Err(RenderError::NotDmx),
        None => Err(RenderError::OutputNotFound { output_id, patch: project.active_patch }),
    }
}

/// A blank universe for serial output `output_id`, once the output, the
/// fixture definitions and the active scene are found (checked in that
/// order); the live view draws nothing into it yet.
pub fn render_live_dmx(project: &Project, output_id: u64) -> (r: Result<[u8; UNIVERSE_SIZE], RenderError>)
    ensures
        match serial_output(*project, output_id) {
            Err(e) => r == Err::<[u8; UNIVERSE_SIZE], RenderError>(e),
            Ok(_) => if project.fixture_definitions is None {
                r == Err::<[u8; UNIVERSE_SIZE], RenderError>(RenderError::MissingFixtureDefinitions)
            } else if first_index(project.scenes@, project.active_scene) is None {
                r == Err::<[u8; UNIVERSE_SIZE], RenderError>(RenderError::SceneNotFound(project.active_scene))
            } else {
                r matches Ok(b) && bytes_of(b@, Seq::new(UNIVERSE_SIZE as nat, |i: int| 0i64))
            },
        },
{
    proof {
        lemma_first_index_valid(project.patches@, project.active_patch);
    }
    let not_found = RenderError::OutputNotFound { output_id, patch: project.active_patch };
    let p = match find_index(&project.patches, project.active_patch) {
        Some(p) => p,
        None => return Err(not_found),
    };
    let outs = &project.patches[p].outputs;
    proof {
        lemma_first_index_valid(outs@, output_id);
    }
    let o = match find_index(outs, output_id) {
        Some(o) => o,
        None => return Err(not_found),
    };
    let fixtures = match &outs[o].output {
        Some(OutputKind::SerialDmx { fixtures }) => fixtures,
        Some(_) => return Err(RenderError::NotDmx),
        None => return Err(not_found),
    };
    let defs = match &project.fixture_definitions {
        Some(d) => d,
        None => return Err(RenderError::MissingFixtureDefinitions),
    };
    if find_index(&project.scenes, project.active_scene).is_none() {
        return Err(RenderError::SceneNotFound(project.active_scene));
    }
    let target = DmxRenderTarget::new(fixtures, defs);
    Ok(target.get_universe())
}

// ---------------------------------------------------------------- modes

/// The rainbow colour of fixture `index` of `count`: the hue `index/count`
/// around the six segments red, yellow, green, cyan, blue, magenta.
pub open spec fn debug_color(index: int, count: int) -> Color {
    let h6 = if count > 0 {
        6 * index * 1_000_000 / count
    } else {
        0
    };
    let seg = h6 / 1_000_000;
    let f = h6 % 1_000_000;
    let u = 1_000_000int;
    let (r, g, b) = if seg == 0 {
        (u, f, 0)
    } else if seg == 1 {
        (u - f, u, 0)
    } else if seg == 2 {
        (0, u, f)
    } else if seg == 3 {
        (0, u - f, u)
    } else if seg == 4 {
        (f, 0, u)
    } else {
        (u, 0, u - f)
    };
    Color { red: r as i64, green: g as i64, blue: b as i64, white: None }
}

/// A state that sets only a colour.
pub open spec fn color_state(c: Color) -> FixtureState {
    FixtureState {
        light_color: Some(LightColor::Color(c)),
        dimmer: None,
        strobe: None,
        pan: None,
        tilt: None,
        width: None,
        height: None,
        zoom: None,
        wled_effect: None,
        wled_palette: None,
    }
}

/// No palette colours.
pub open spec fn no_palette() -> PaletteColors {
    PaletteColors { primary: None, secondary: None, tertiary: None }
}

/// The first `k` fixtures of `ids` in their rainbow colours.
pub open spec fn debug_fold<T: RenderTarget>(v: T::V, ids: Seq<QualifiedFixtureId>, k: int) -> T::V
    decreases k,
{
    if k <= 0 || k > ids.len() {
        v
    } else {
        T::applied(
            debug_fold::<T>(v, ids, k - 1),
            ids[k - 1],
            color_state(debug_color(k - 1, ids.len() as int)),
            no_palette(),
        )
    }
}

fn rainbow(index: usize, count: usize) -> (r: Color)
    requires
        index < count,
    ensures
        r == debug_color(index as int, count as int),
{
    assert(6 * index * 1_000_000 < 6 * count * 1_000_000) by (nonlinear_arith)
        requires
            index < count,
    ;
    let h6: u128 = 6 * index as u128 * 1_000_000 / count as u128;
    proof {
        let x: int = 6 * index * 1_000_000;
        let c: int = count as int;
        vstd::arithmetic::div_mod::lemma_fundamental_div_mod(x, c);
        assert(h6 as int == x / c);
        assert(h6 < 6_000_000) by (nonlinear_arith)
            requires
                x == c * (x / c) + x % c,
                0 <= x % c,
                x < 6 * c * 1_000_000,
                h6 as int == x / c,
                c > 0,
        ;
    }
    let seg: u128 = h6 / 1_000_000;
    let f: i64 = (h6 % 1_000_000) as i64;
    let u: i64 = 1_000_000;
    let (red, green, blue) = if seg == 0 {
        (u, f, 0)
    } else if seg == 1 {
        (u - f, u, 0)
    } else if seg == 2 {
        (0, u, f)
    } else if seg == 3 {
        (0, u - f, u)
    } else if seg == 4 {
        (f, 0, u)
    } else {
        (u, 0, u - f)
    };
    Color { red, green, blue, white: None }
}

/// Paints the members of group `group_id` in a rainbow.
pub fn render_group_debug<T: RenderTarget>(render_target: &mut T, project: &Project, group_id: u64)
    ensures
        final(render_target)@ == debug_fold::<T>(
            old(render_target)@,
            target_fixtures(*project, OutputTarget::Group(group_id)),
            target_fixtures(*project, OutputTarget::Group(group_id)).len() as int,
        ),
{
    let ids = get_fixtures(project, &OutputTarget::Group(group_id));
    let ghost v0 = render_target@;
    let palette = PaletteColors { primary: None, secondary: None, tertiary: None };
    let n = ids.len();
    let mut i: usize = 0;
    while i < n
        invariant
            0 <= i <= n,
            n == ids@.len(),
            palette == no_palette(),
            render_target@ == debug_fold::<T>(v0, ids@, i as int),
        decreases n - i,
    {
        let state = FixtureState {
            light_color: Some(LightColor::Color(rainbow(i, n))),
            dimmer: None,
            strobe: None,
            pan: None,
            tilt: None,
            width: None,
            height: None,
            zoom: None,
            wled_effect: None,
            wled_palette: None,
        };
        render_target.apply_state(&ids[i], &state, &palette);
        i = i + 1;
    }
}

/// What the render mode draws into a target: nothing for blackout, for no
/// mode and for a fixture test pattern (which this engine leaves dark); the rainbow for a
/// group; scene `scene_id` for a scene (an error where it or the beat clock
/// is missing); an error for a show.
pub open spec fn mode_outcome<T: RenderTarget>(
    v: T::V,
    mode: Option<RenderMode>,
    project: &Project,
    table: &RandomTable,
    system_t: u64,
    frame: u32,
) -> Result<T::V, RenderError> {
    match mode {
        None => Ok(v),
        Some(RenderMode::Blackout) => Ok(v),
        Some(RenderMode::FixtureDebug { output_id }) => Ok(v),
        Some(RenderMode::GroupDebug { group_id }) => {
            let ids = target_fixtures(*project, OutputTarget::Group(group_id));
            Ok(debug_fold::<T>(v, ids, ids.len() as int))
        },
        Some(RenderMode::Scene { scene_id }) => match first_index(project.scenes@, scene_id) {
            None => Err(RenderError::SceneNotFound(scene_id)),
            Some(si) => match project.live_beat {
                None => Err(RenderError::LiveBeatMissing),
                Some(beat) => Ok(
                    scene_result::<T>(
                        frame_of(project, table, project.scenes@[si], beat, system_t, frame),
                        v,
                        project.scenes@[si],
                        Some(beat),
                        system_t,
                    ),
                ),
            },
        },
        Some(RenderMode::Show) => Err(RenderError::ShowUnsupported),
    }
}

/// Draws what the render mode asks for into `render_target`.
pub fn render<T: RenderTarget>(
    render_target: &mut T,
    mode: Option<RenderMode>,
    project: &Project,
    table: &RandomTable,
    system_t: u64,
    frame: u32,
) -> (r: Result<(), RenderError>)
    requires
        table.wf(),
    ensures
        match mode_outcome::<T>(old(render_target)@, mode, project, table, system_t, frame) {
            Ok(v) => r is Ok && final(render_target)@ == v,
            Err(e) => r == Err::<(), RenderError>(e),
        },
{
    match mode {
        None => Ok(()),
        Some(RenderMode::Blackout) => Ok(()),
        Some(RenderMode::FixtureDebug { .. }) => Ok(()),
        Some(RenderMode::GroupDebug { group_id }) => {
            render_group_debug(render_target, project, group_id);
            Ok(())
        },
        Some(RenderMode::Scene { scene_id }) => {
            proof {
                lemma_first_index_valid(project.scenes@, scene_id);
            }
            let si = match find_index(&project.scenes, scene_id) {
                Some(si) => si,
                None => return Err(RenderError::SceneNotFound(scene_id)),
            };
            let beat = match project.live_beat {
                Some(b) => b,
                None => return Err(RenderError::LiveBeatMissing),
            };
            render_scene(&project.scenes[si], render_target, system_t, frame, &beat, project, table);
            Ok(())
        },
        Some(RenderMode::Show) => Err(RenderError::ShowUnsupported),
    }
}

/// The universe of DMX output `output_id` under the render mode, or why
/// there is none: the output and the fixture definitions are checked first.
pub open spec fn dmx_mode_outcome(
    project: &Project,
    mode: Option<RenderMode>,
    table: &RandomTable,
    output_id: u64,
    system_t: u64,
    frame: u32,
) -> Result<Seq<i64>, RenderError> {
    match dmx_output(*project, output_id) {
        Err(e) => Err(e),
        Ok(fixtures) => match project.fixture_definitions {
            None => Err(RenderError::MissingFixtureDefinitions),
            Some(defs) => match mode_outcome::<DmxRenderTarget>(empty_dmx(fixtures, defs@), mode, project, table, system_t, frame) {
                Ok(v) => Ok(v.universe),
                Err(e) => Err(e),
            },
        },
    }
}

/// The bytes of DMX output `output_id` under the render mode.
pub fn render_dmx(
    project: &Project,
    mode: Option<RenderMode>,
    table: &RandomTable,
    output_id: u64,
    system_t: u64,
    frame: u32,
) -> (r: Result<[u8; UNIVERSE_SIZE], RenderError>)
    requires
        table.wf(),
    ensures
        dmx_result_matches(r, dmx_mode_outcome(project, mode, table, output_id, system_t, frame)),
{
    let fixtures = match find_dmx_output(project, output_id) {
        Ok(f) => f,
        Err(e) => return Err(e),
    };
    let defs = match &project.fixture_definitions {
        Some(d) => d,
        None => return Err(RenderError::MissingFixtureDefinitions),
    };
    let mut target = DmxRenderTarget::new(fixtures, defs);
    assert(target@ == empty_dmx(fixtures@, defs@));
    match render(&mut target, mode, project, table, system_t, frame) {
        Ok(()) => Ok(target.get_universe()),
        Err(e) => Err(e),
    }
}

/// The segments of WLED output `output_id` under the render mode.
pub fn render_wled(
    project: &Project,
    mode: Option<RenderMode>,
    table: &RandomTable,
    output_id: u64,
    system_t: u64,
    frame: u32,
) -> (r: Result<WledRenderTarget, RenderError>)
    requires
        table.wf(),
    ensures
        match wled_output(*project, output_id) {
            Err(e) => r == Err::<WledRenderTarget, RenderError>(e),
            Ok(n) => match (r, mode_outcome::<WledRenderTarget>(empty_wled(output_id, n), mode, project, table, system_t, frame)) {
                (Ok(t), Ok(v)) => t@ == v,
                (Err(e), Err(f)) => e == f,
                _ => false,
            },
        },
{
    let n = match find_wled_output(project, output_id) {
        Ok(n) => n,
        Err(e) => return Err(e),
    };
    let mut target = WledRenderTarget::new(output_id, n);
    assert(target@ == empty_wled(output_id, n as nat));
    match render(&mut target, mode, project, table, system_t, frame) {
        Ok(()) => Ok(target),
        Err(e) => Err(e),
    }
}

} // verus!
