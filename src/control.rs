//! The control surface: listing the tiles of a scene and switching them on,
//! off, or to a fixed strength.

use vstd::prelude::*;

use crate::fixed::UNIT;
use crate::lookup::{find_index, first_index, lemma_first_index_valid};
use crate::model::{Project, Scene, Tile, TileMap, Transition};

verus! {

/// A tile as the control surface reports it.
#[derive(Clone, Debug)]
pub struct TileInfo {
    pub id: u64,
    pub name: String,
    pub x: i32,
    pub y: i32,
    pub priority: i32,
    pub enabled: bool,
    /// Strength in fixed point.
    pub amount: i64,
}

/// Why a control request failed.
#[derive(Clone, Copy, Debug, PartialEq, Eq, Structural)]
pub enum ControlError {
    /// The active scene does not exist.
    SceneNotFound,
    /// No tile of the scene has this id.
    TileNotFound(u64),
    /// The tile entry holds no tile.
    TileDataMissing,
    /// A strength outside `[0, 1]`.
    InvalidAmount,
}

/// Whether a tile counts as on, and its nominal strength: a fade-in is on at
/// full, a fade-out off at 0, a fixed strength is on above a tenth, no
/// transition is off at 0.
pub open spec fn tile_state(transition: Option<Transition>) -> (bool, i64) {
    match transition {
        Some(Transition::StartFadeInMs(_)) => (true, UNIT),
        Some(Transition::StartFadeOutMs(_)) => (false, 0),
        Some(Transition::AbsoluteStrength(s)) => (s > UNIT / 10, s),
        None => (false, 0),
    }
}

/// Whether a tile counts as on, and its nominal strength.
pub fn get_tile_state(tile: &Tile) -> (r: (bool, i64))
    ensures
        r == tile_state(tile.transition),
{
    match tile.transition {
        Some(Transition::StartFadeInMs(_)) => (true, 1_000_000),
        Some(Transition::StartFadeOutMs(_)) => (false, 0),
        Some(Transition::AbsoluteStrength(s)) => (s > 100_000, s),
        None => (false, 0),
    }
}

/// The report of tile entry `tm` holding `tile`.
pub open spec fn info_matches(info: TileInfo, tm: TileMap, tile: Tile) -> bool {
    &&& info.id == tm.id
    &&& info.name@ == tile.name@
    &&& info.x == tm.x
    &&& info.y == tm.y
    &&& info.priority == tm.priority
    &&& (info.enabled, info.amount) == tile_state(tile.transition)
}

fn tile_info(tm: &TileMap, tile: &Tile) -> (r: TileInfo)
    ensures
        info_matches(r, *tm, *tile),
{
    let (enabled, amount) = get_tile_state(tile);
    TileInfo { id: tm.id, name: tile.name.clone(), x: tm.x, y: tm.y, priority: tm.priority, enabled, amount }
}

/// The entries of a tile map that hold a tile, in order.
pub open spec fn tiles_with_content(tms: Seq<TileMap>) -> Seq<TileMap>
    decreases tms.len(),
{
    if tms.len() == 0 {
        Seq::empty()
    } else {
        tiles_with_content(tms.drop_last()) + if tms.last().tile is Some {
            seq![tms.last()]
        } else {
            Seq::empty()
        }
    }
}

/// The position of the active scene, if it exists.
pub fn active_scene_index(project: &Project) -> (r: Option<usize>)
    ensures
        r matches Some(i) ==> i < project.scenes@.len() && first_index(project.scenes@, project.active_scene) == Some(i as int),
        r is None ==> first_index(project.scenes@, project.active_scene) is None,
{
    find_index(&project.scenes, project.active_scene)
}

/// Every tile of the active scene that holds content, with its state.
pub fn list_tiles(project: &Project) -> (r: Result<Vec<TileInfo>, ControlError>)
    ensures
        match first_index(project.scenes@, project.active_scene) {
            None => r == Err::<Vec<TileInfo>, ControlError>(ControlError::SceneNotFound),
            Some(si) => r matches Ok(infos) && {
                let tms = tiles_with_content(project.scenes@[si].tile_map@);
                &&& infos@.len() == tms.len()
                &&& forall|i: int| 0 <= i < tms.len() ==> info_matches(infos@[i], tms[i], tms[i].tile->0)
            },
        },
{
    proof {
        lemma_first_index_valid(project.scenes@, project.active_scene);
    }
    let si = match find_index(&project.scenes, project.active_scene) {
        Some(si) => si,
        None => return Err(ControlError::SceneNotFound),
    };
    let tms = &project.scenes[si].tile_map;
    let mut out: Vec<TileInfo> = Vec::new();
    let mut i: usize = 0;
    while i < tms.len()
        invariant
            0 <= i <= tms.len(),
            out@.len() == tiles_with_content(tms@.take(i as int)).len(),
            forall|j: int|
                0 <= j < out@.len() ==> info_matches(
                    out@[j],
                    tiles_with_content(tms@.take(i as int))[j],
                    tiles_with_content(tms@.take(i as int))[j].tile->0,
                ),
        decreases tms.len() - i,
    {
        assert(tms@.take(i as int + 1).drop_last() =~= tms@.take(i as int));
        let ghost prev = tiles_with_content(tms@.take(i as int));
        match &tms[i].tile {
            Some(tile) => {
                out.push(tile_info(&tms[i], tile));
                assert(tiles_with_content(tms@.take(i as int + 1)) =~= prev.push(tms@[i as int]));
            },
            None => {
                assert(tiles_with_content(tms@.take(i as int + 1)) =~= prev);
            },
        }
        i = i + 1;
    }
    assert(tms@.take(i as int) =~= tms@);
    Ok(out)
}

/// `b` is `a` with only its tile map changed.
pub open spec fn same_but_tiles(a: Scene, b: Scene) -> bool {
    &&& a.id == b.id
    &&& a.name == b.name
    &&& a.color_palettes == b.color_palettes
    &&& a.active_color_palette == b.active_color_palette
    &&& a.last_active_color_palette == b.last_active_color_palette
    &&& a.color_palette_start_transition == b.color_palette_start_transition
    &&& a.color_palette_transition_duration_ms == b.color_palette_transition_duration_ms
}

/// The outcome of setting the transition of tile `tile_id` of `before`: the
/// first entry with that id gets it, if the entry holds a tile.
pub open spec fn transition_set(before: Scene, after: Scene, tile_id: u64, t: Transition, r: Result<TileInfo, ControlError>) -> bool {
    match first_index(before.tile_map@, tile_id) {
        None => r == Err::<TileInfo, ControlError>(ControlError::TileNotFound(tile_id)) && after == before,
        Some(i) => match before.tile_map@[i].tile {
            None => r == Err::<TileInfo, ControlError>(ControlError::TileDataMissing) && after == before,
            Some(tile) => {
                let tm = before.tile_map@[i];
                let new_tile = Tile { transition: Some(t), ..tile };
                let new_tm = TileMap { tile: Some(new_tile), ..tm };
                &&& after.tile_map@ == before.tile_map@.update(i, new_tm)
                &&& same_but_tiles(before, after)
                &&& r matches Ok(info) && info_matches(info, new_tm, new_tile)
            },
        },
    }
}

fn set_transition(scene: &mut Scene, tile_id: u64, t: Transition) -> (r: Result<TileInfo, ControlError>)
    ensures
        transition_set(*old(scene), *final(scene), tile_id, t, r),
{
    proof {
        lemma_first_index_valid(scene.tile_map@, tile_id);
    }
    let i = match find_index(&scene.tile_map, tile_id) {
        Some(i) => i,
        None => return Err(ControlError::TileNotFound(tile_id)),
    };
    if scene.tile_map[i].tile.is_none() {
        return Err(ControlError::TileDataMissing);
    }
    let ghost old_tiles = scene.tile_map@;
    let tm = scene.tile_map.remove(i);
    let new_tile = match tm.tile {
        Some(tile) => Tile {
            name: tile.name,
            transition: Some(t),
            timing_details: tile.timing_details,
            channels: tile.channels,
        },
        None => {
            assert(false);
            return Err(ControlError::TileDataMissing);
        },
    };
    let info = tile_info(&TileMap { id: tm.id, x: tm.x, y: tm.y, priority: tm.priority, tile: None }, &new_tile);
    let new_tm = TileMap { id: tm.id, x: tm.x, y: tm.y, priority: tm.priority, tile: Some(new_tile) };
    scene.tile_map.insert(i, new_tm);
    assert(scene.tile_map@ =~= old_tiles.update(i as int, new_tm));
    Ok(info)
}

/// Starts the fade-in of tile `tile_id` at `now_ms`.
pub fn enable_tile(scene: &mut Scene, tile_id: u64, now_ms: u64) -> (r: Result<TileInfo, ControlError>)
    ensures
        transition_set(*old(scene), *final(scene), tile_id, Transition::StartFadeInMs(now_ms), r),
{
    set_transition(scene, tile_id, Transition::StartFadeInMs(now_ms))
}

/// Starts the fade-out of tile `tile_id` at `now_ms`.
pub fn disable_tile(scene: &mut Scene, tile_id: u64, now_ms: u64) -> (r: Result<TileInfo, ControlError>)
    ensures
        transition_set(*old(scene), *final(scene), tile_id, Transition::StartFadeOutMs(now_ms), r),
{
    set_transition(scene, tile_id, Transition::StartFadeOutMs(now_ms))
}

/// Holds tile `tile_id` at strength `amount`, which must lie in `[0, 1]`.
pub fn set_tile_amount(scene: &mut Scene, tile_id: u64, amount: i64) -> (r: Result<TileInfo, ControlError>)
    ensures
        !(0 <= amount <= UNIT) ==> r == Err::<TileInfo, ControlError>(ControlError::InvalidAmount) && *final(scene) == *old(scene),
        0 <= amount <= UNIT ==> transition_set(*old(scene), *final(scene), tile_id, Transition::AbsoluteStrength(amount), r),
{
    if amount < 0 || amount > 1_000_000 {
        return Err(ControlError::InvalidAmount);
    }
    set_transition(scene, tile_id, Transition::AbsoluteStrength(amount))
}

} // verus!
