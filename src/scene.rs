//! The scene compositor: tiles are drawn in priority order, each blended over
//! what lies below by its strength.

use vstd::prelude::*;

use crate::effects::{apply_effect, effect_result, names_fixtures, Frame, MAX_EFFECT_DEPTH};
use crate::fixed::{floor_div, UNIT};
use crate::lookup::{find_index, first_index, lemma_first_index_valid};
use crate::model::{
    BeatMetadata, EffectChannel, PaletteColors, Project, Scene, Tile, TileMap,
};
use crate::palette::{blend_palette_colors, interpolate_palette_colors};
use crate::random::RandomTable;
use crate::resolve::target_fixtures;
use crate::target::RenderTarget;
use crate::tile::{effect_clock, elapsed, tile_active_amount, tile_amount, tile_effect_clock};
use crate::timing::{beat_progress, beat_t_at};

verus! {

// ---------------------------------------------------------------- order

/// Whether tile `a` sorts before tile `b`: by priority, then x, then y.
pub open spec fn tile_key_lt(a: TileMap, b: TileMap) -> bool {
    a.priority < b.priority || (a.priority == b.priority && (a.x < b.x || (a.x == b.x && a.y < b.y)))
}

/// Position `k` inserted into a sorted order, after every position whose tile
/// does not sort after it.
pub open spec fn insert_sorted(tiles: Seq<TileMap>, o: Seq<usize>, k: usize) -> Seq<usize>
    decreases o.len(),
{
    if o.len() == 0 {
        seq![k]
    } else if tile_key_lt(tiles[k as int], tiles[o.last() as int]) {
        insert_sorted(tiles, o.drop_last(), k).push(o.last())
    } else {
        o.push(k)
    }
}

/// The positions of the first `n` tiles in drawing order: ascending by
/// priority, x, y, so that the highest-priority tile is drawn last, on top;
/// tiles with equal keys keep their listed order.
pub open spec fn draw_order(tiles: Seq<TileMap>, n: int) -> Seq<usize>
    decreases n,
{
    if n <= 0 {
        Seq::empty()
    } else {
        insert_sorted(tiles, draw_order(tiles, n - 1), (n - 1) as usize)
    }
}

fn key_lt(a: &TileMap, b: &TileMap) -> (r: bool)
    ensures
        r == tile_key_lt(*a, *b),
{
    a.priority < b.priority || (a.priority == b.priority && (a.x < b.x || (a.x == b.x && a.y < b.y)))
}

fn insert_in_order(tiles: &Vec<TileMap>, o: &mut Vec<usize>, k: usize)
    requires
        k < tiles@.len(),
        forall|i: int| 0 <= i < old(o)@.len() ==> old(o)@[i] < tiles@.len(),
    ensures
        final(o)@ == insert_sorted(tiles@, old(o)@, k),
        forall|i: int| 0 <= i < final(o)@.len() ==> final(o)@[i] < tiles@.len(),
    decreases old(o)@.len(),
{
    if o.len() == 0 {
        o.push(k);
        return ;
    }
    let last = o[o.len() - 1];
    if key_lt(&tiles[k], &tiles[last]) {
        let ghost before = o@;
        o.pop();
        assert(o@ =~= before.drop_last());
        insert_in_order(tiles, o, k);
        o.push(last);
    } else {
        o.push(k);
    }
}

/// The positions of a scene's tiles in drawing order.
pub fn tile_draw_order(tiles: &Vec<TileMap>) -> (r: Vec<usize>)
    ensures
        r@ == draw_order(tiles@, tiles@.len() as int),
        forall|i: int| 0 <= i < r@.len() ==> r@[i] < tiles@.len(),
{
    let mut o: Vec<usize> = Vec::new();
    let mut k: usize = 0;
    while k < tiles.len()
        invariant
            0 <= k <= tiles.len(),
            o@ == draw_order(tiles@, k as int),
            forall|i: int| 0 <= i < o@.len() ==> o@[i] < tiles@.len(),
        decreases tiles.len() - k,
    {
        insert_in_order(tiles, &mut o, k);
        k = k + 1;
    }
    o
}

// ---------------------------------------------------------------- palette

/// How far a scene's palette has morphed at `system_t`: the time since the
/// morph started over its duration, within `[0, 1]`; complete for a zero
/// duration.
pub open spec fn palette_progress(scene: Scene, system_t: u64) -> int {
    let d = scene.color_palette_transition_duration_ms;
    if d == 0 {
        UNIT as int
    } else {
        let p = floor_div(elapsed(system_t, scene.color_palette_start_transition) * UNIT, d as int);
        if p > UNIT {
            UNIT as int
        } else {
            p
        }
    }
}

/// The colours of the scene's palette `id`; none where it is missing.
pub open spec fn scene_palette_colors(scene: Scene, id: u64) -> PaletteColors {
    match first_index(scene.color_palettes@, id) {
        Some(i) => scene.color_palettes@[i].palette.spec_colors(),
        None => PaletteColors { primary: None, secondary: None, tertiary: None },
    }
}

/// The palette a frame renders with: the previous palette morphed towards the
/// active one.
pub open spec fn frame_palette(scene: Scene, system_t: u64) -> PaletteColors {
    blend_palette_colors(
        scene_palette_colors(scene, scene.last_active_color_palette),
        scene_palette_colors(scene, scene.active_color_palette),
        palette_progress(scene, system_t),
    )
}

fn palette_colors_by_id(scene: &Scene, id: u64) -> (r: PaletteColors)
    ensures
        r == scene_palette_colors(*scene, id),
{
    proof {
        lemma_first_index_valid(scene.color_palettes@, id);
    }
    match find_index(&scene.color_palettes, id) {
        Some(i) => scene.color_palettes[i].palette.colors(),
        None => PaletteColors { primary: None, secondary: None, tertiary: None },
    }
}

/// The palette colours a frame of `scene` renders with at `system_t`.
pub fn scene_palette(scene: &Scene, system_t: u64) -> (r: PaletteColors)
    ensures
        r == frame_palette(*scene, system_t),
{
    let d = scene.color_palette_transition_duration_ms;
    let u: i64 = if d == 0 {
        1_000_000
    } else {
        let since: u64 = if system_t >= scene.color_palette_start_transition {
            system_t - scene.color_palette_start_transition
        } else {
            0
        };
        let p: u128 = since as u128 * 1_000_000 / d as u128;
        if p > 1_000_000 {
            1_000_000
        } else {
            p as i64
        }
    };
    let a = palette_colors_by_id(scene, scene.last_active_color_palette);
    let b = palette_colors_by_id(scene, scene.active_color_palette);
    interpolate_palette_colors(&a, &b, u)
}

// ---------------------------------------------------------------- tiles

/// The effects of the first `k` channels of a tile written into `v`; a
/// channel without an effect or a target is passed over.
pub open spec fn channels_result<T: RenderTarget>(
    f: Frame,
    v: T::V,
    chans: Seq<EffectChannel>,
    k: int,
    system_t: u64,
    ms: u64,
    dur: u64,
) -> T::V
    decreases k,
{
    if k <= 0 || k > chans.len() {
        v
    } else {
        let prev = channels_result::<T>(f, v, chans, k - 1, system_t, ms, dur);
        match (chans[k - 1].effect, chans[k - 1].output_target) {
            (Some(e), Some(ot)) => effect_result::<T>(
                f,
                prev,
                target_fixtures(*f.project, ot),
                names_fixtures(ot),
                system_t,
                ms,
                dur,
                e,
                MAX_EFFECT_DEPTH as nat,
            ),
            _ => prev,
        }
    }
}

/// One tile drawn over `v`: its effects are written into a copy, and `v` is
/// set to the blend of itself and that copy by the tile's strength; a tile of
/// strength 0 is passed over.
pub open spec fn tile_result<T: RenderTarget>(
    f: Frame,
    v: T::V,
    tile: Tile,
    beat: Option<BeatMetadata>,
    system_t: u64,
) -> T::V {
    let amount = tile_amount(tile.transition, tile.timing_details, beat, system_t);
    if amount == 0 {
        v
    } else {
        let clock = effect_clock(tile.transition, tile.timing_details, beat, system_t);
        let after = channels_result::<T>(f, v, tile.channels@, tile.channels@.len() as int, system_t, clock.0, clock.1);
        T::blended(v, v, after, amount)
    }
}

/// The first `k` tiles of a drawing order drawn over `v`.
pub open spec fn tiles_result<T: RenderTarget>(
    f: Frame,
    v: T::V,
    tiles: Seq<TileMap>,
    order: Seq<usize>,
    k: int,
    beat: Option<BeatMetadata>,
    system_t: u64,
) -> T::V
    decreases k,
{
    if k <= 0 || k > order.len() {
        v
    } else {
        let prev = tiles_result::<T>(f, v, tiles, order, k - 1, beat, system_t);
        match tiles[order[k - 1] as int].tile {
            Some(tile) => tile_result::<T>(f, prev, tile, beat, system_t),
            None => prev,
        }
    }
}

/// Every tile of a scene drawn over `v`, in drawing order.
pub open spec fn scene_result<T: RenderTarget>(f: Frame, v: T::V, scene: Scene, beat: Option<BeatMetadata>, system_t: u64) -> T::V {
    let order = draw_order(scene.tile_map@, scene.tile_map@.len() as int);
    tiles_result::<T>(f, v, scene.tile_map@, order, order.len() as int, beat, system_t)
}

/// What a frame of `scene` at `system_t` shares between its effects.
pub open spec fn frame_of<'a>(
    project: &'a Project,
    table: &'a RandomTable,
    scene: Scene,
    beat: BeatMetadata,
    system_t: u64,
    frame: u32,
) -> Frame<'a> {
    Frame {
        project,
        table,
        palette: frame_palette(scene, system_t),
        beat_t: beat_progress(system_t, beat) as i128,
        frame,
    }
}

fn apply_channels<T: RenderTarget>(
    ctx: &Frame,
    target: &mut T,
    chans: &Vec<EffectChannel>,
    system_t: u64,
    ms: u64,
    dur: u64,
)
    requires
        ctx.wf(),
    ensures
        final(target)@ == channels_result::<T>(*ctx, old(target)@, chans@, chans@.len() as int, system_t, ms, dur),
{
    let ghost v0 = target@;
    let mut i: usize = 0;
    while i < chans.len()
        invariant
            ctx.wf(),
            0 <= i <= chans.len(),
            target@ == channels_result::<T>(*ctx, v0, chans@, i as int, system_t, ms, dur),
        decreases chans.len() - i,
    {
        match (&chans[i].effect, &chans[i].output_target) {
            (Some(e), Some(ot)) => apply_effect(ctx, target, ot, system_t, ms, dur, e),
            _ => {},
        }
        i = i + 1;
    }
}

fn draw_tile<T: RenderTarget>(ctx: &Frame, target: &mut T, tile: &Tile, beat: Option<BeatMetadata>, system_t: u64)
    requires
        ctx.wf(),
    ensures
        final(target)@ == tile_result::<T>(*ctx, old(target)@, *tile, beat, system_t),
{
    let amount = tile_active_amount(tile, beat, system_t);
    if amount == 0 {
        return ;
    }
    let (ms, dur) = tile_effect_clock(tile, beat, system_t);
    let before = target.duplicate();
    let mut after = target.duplicate();
    apply_channels(ctx, &mut after, &tile.channels, system_t, ms, dur);
    target.interpolate(&before, &after, amount);
}

/// Draws every tile of `scene` into `render_target`, in drawing order.
pub fn render_scene<T: RenderTarget>(
    scene: &Scene,
    render_target: &mut T,
    system_t: u64,
    frame: u32,
    beat_metadata: &BeatMetadata,
    project: &Project,
    table: &RandomTable,
)
    requires
        table.wf(),
    ensures
        final(render_target)@ == scene_result::<T>(
            frame_of(project, table, *scene, *beat_metadata, system_t, frame),
            old(render_target)@,
            *scene,
            Some(*beat_metadata),
            system_t,
        ),
{
    let beat_t = beat_t_at(system_t, beat_metadata);
    let ctx = Frame { project, table, palette: scene_palette(scene, system_t), beat_t, frame };
    assert(ctx == frame_of(project, table, *scene, *beat_metadata, system_t, frame));
    let order = tile_draw_order(&scene.tile_map);
    let ghost v0 = render_target@;
    let tiles = &scene.tile_map;
    let mut k: usize = 0;
    while k < order.len()
        invariant
            ctx.wf(),
            0 <= k <= order.len(),
            tiles@ == scene.tile_map@,
            order@ == draw_order(tiles@, tiles@.len() as int),
            forall|i: int| 0 <= i < order@.len() ==> order@[i] < tiles@.len(),
            render_target@ == tiles_result::<T>(ctx, v0, tiles@, order@, k as int, Some(*beat_metadata), system_t),
        decreases order.len() - k,
    {
        match &tiles[order[k]].tile {
            Some(tile) => draw_tile(&ctx, render_target, tile, Some(*beat_metadata), system_t),
            None => {},
        }
        k = k + 1;
    }
}

} // verus!
