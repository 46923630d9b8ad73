//! One loaded level: the tile grid and tile-occupancy array, the depth-sorted
//! entity list, and the camera and visible-tile arithmetic of its renderer.

use vstd::prelude::*;
use crate::base_canvas::BaseCanvasState;
use crate::entity::{EntityArena, EntityId, EntityKind, EntityNode};
use crate::entity_list::{
    self, EntityListState, sorted_by_depth, depth_of, reorder_spec, pos_in, lemma_reorder_sorts,
    relinked, links_only_changed,
};
use crate::jvm::{java_div, spec_java_div};
use crate::bitmap_font::{wadd, GlyphOp};
use crate::base_canvas::wmul;

verus! {

/// The level class state that persists across map loads.
pub struct GameMapClassState {
    /// Minimap tile size in pixels (3 on large screens).
    pub minimap_scale: i8,
    /// Tileset of the previously loaded map (-1 for none).
    pub last_tileset_id: i8,
}

impl GameMapClassState {
    /// The class-load state: scale 2, no tileset loaded.
    pub fn new() -> (s: Self)
        ensures
            s.minimap_scale == 2,
            s.last_tileset_id == -1,
    {
        GameMapClassState { minimap_scale: 2, last_tileset_id: -1 }
    }
}

impl Default for GameMapClassState {
    fn default() -> (s: Self)
        ensures
            s.minimap_scale == 2,
            s.last_tileset_id == -1,
    {
        GameMapClassState::new()
    }
}

/// One loaded level.
pub struct GameMapState {
    /// Map type/id.
    pub map_type: i8,
    /// Tileset id.
    pub tileset_id: i8,
    /// One of the four boss maps.
    pub boss_map: bool,
    /// The camera is fixed on the boss arena.
    pub locked_camera: bool,
    /// Zone-name banner countdown.
    pub zone_banner_timer: i8,
    /// Width in tiles.
    pub width_tiles: i32,
    /// Height in tiles.
    pub height_tiles: i32,
    /// Width in pixels.
    pub width_px: i32,
    /// Height in pixels.
    pub height_px: i32,
    /// Tile index per cell, row by row.
    pub tile_grid: Option<Vec<Vec<i8>>>,
    /// Collision code per cell.
    pub collision_grid: Option<Vec<Vec<i8>>>,
    /// The entity occupying each cell.
    pub occupancy: Option<Vec<Vec<Option<EntityId>>>>,
    /// The map's NPCs.
    pub npcs: Option<Vec<Option<EntityId>>>,
    /// The map's props.
    pub objects: Option<Vec<Option<EntityId>>>,
    /// The depth-sorted draw list.
    pub entities: EntityListState,
    /// Dropped pickups, each a packed record.
    pub pickups: Vec<Vec<i8>>,
    /// Delayed enemy spawns.
    pub spawn_queue: Vec<Vec<i32>>,
    /// Countdown driving spawns and fades.
    pub spawn_tick: i32,
    /// Per-tile trigger tables.
    pub triggers: Option<Vec<Option<Vec<Vec<i8>>>>>,
    /// Event tables.
    pub event_scripts: Option<Vec<Option<Vec<Vec<i8>>>>>,
    /// Decoded dialogue.
    pub dialogue_strings: Option<Vec<Option<Vec<u16>>>>,
    /// Minimap dot blink phase.
    pub minimap_blink: bool,
    /// Raw map bytes while parsing.
    pub map_data: Option<Vec<i8>>,
    /// Zone name for the banner.
    pub zone_name: Option<Vec<u16>>,
    /// One-frame camera nudge, X.
    pub camera_shift_x: i32,
    /// One-frame camera nudge, Y.
    pub camera_shift_y: i32,
    /// Combat is possible on this map.
    pub combat_enabled: bool,
}

/// `is_boss_map(map_type)`: the four boss map types 11, 13, 15 and 82.
pub fn is_boss_map(map_type: i32) -> (r: bool)
    ensures
        r == (map_type == 11 || map_type == 13 || map_type == 15 || map_type == 82),
{
    map_type == 11 || map_type == 13 || map_type == 15 || map_type == 82
}

/// `GameMap::new(b)`: an empty level of type `b` (boss arenas 13 and 15 lock the
/// camera) with a spawn tick of 16; on a screen at least 240x240 the minimap
/// scale becomes 3.
pub fn new_game_map(class_state: &mut GameMapClassState, base_canvas: &BaseCanvasState, b: i8) -> (m: GameMapState)
    ensures
        m.map_type == b,
        m.boss_map == (b == 11 || b == 13 || b == 15 || b == 82),
        m.locked_camera == (b == 13 || b == 15),
        m.spawn_tick == 16,
        m.entities.ids().len() == 0 && m.entities.head is None && m.entities.tail is None,
        m.entities.count == 0,
        m.tile_grid is None && m.occupancy is None && m.collision_grid is None,
        m.width_tiles == 0 && m.height_tiles == 0 && m.width_px == 0 && m.height_px == 0,
        m.pickups@.len() == 0 && m.spawn_queue@.len() == 0,
        m.camera_shift_x == 0 && m.camera_shift_y == 0 && !m.combat_enabled,
        final(class_state).last_tileset_id == old(class_state).last_tileset_id,
        final(class_state).minimap_scale == if base_canvas.width < 240 || base_canvas.height < 240 {
            old(class_state).minimap_scale
        } else {
            3
        },
{
    let map = GameMapState {
        map_type: b,
        tileset_id: 0,
        boss_map: is_boss_map(b as i32),
        locked_camera: b == 13 || b == 15,
        zone_banner_timer: 0,
        width_tiles: 0,
        height_tiles: 0,
        width_px: 0,
        height_px: 0,
        tile_grid: None,
        collision_grid: None,
        occupancy: None,
        npcs: None,
        objects: None,
        entities: EntityListState::new(),
        pickups: Vec::new(),
        spawn_queue: Vec::new(),
        spawn_tick: 16,
        triggers: None,
        event_scripts: None,
        dialogue_strings: None,
        minimap_blink: false,
        map_data: None,
        zone_name: None,
        camera_shift_x: 0,
        camera_shift_y: 0,
        combat_enabled: false,
    };
    if base_canvas.width < 240 || base_canvas.height < 240 {
        return map;
    }
    class_state.minimap_scale = 3;
    map
}

proof fn lemma_sorted_same_depths(ids: Seq<EntityId>, a: Seq<EntityNode>, b: Seq<EntityNode>)
    requires
        sorted_by_depth(ids, a),
        forall|i: int| 0 <= i < ids.len() ==> depth_of(a, #[trigger] ids[i]) == depth_of(b, ids[i]),
    ensures
        sorted_by_depth(ids, b),
{
    assert forall|i: int, j: int| 0 <= i < j < ids.len() implies depth_of(b, #[trigger] ids[i])
        <= depth_of(b, #[trigger] ids[j]) by {
        assert(depth_of(a, ids[i]) <= depth_of(a, ids[j]));
    }
}

/// `add_entity(id)`: links the entity at the back of the draw list and slides it
/// into depth order. A depth-sorted list stays sorted and gains exactly `id`.
pub fn add_entity(map: &mut GameMapState, arena: &mut EntityArena, id: EntityId)
    requires
        old(map).entities.wf(old(arena)@),
        id < old(arena)@.len(),
        !old(map).entities.ids().contains(id),
    ensures
        final(map).entities.wf(final(arena)@),
        final(map).entities.ids().len() == old(map).entities.ids().len() + 1,
        forall|x: EntityId| final(map).entities.ids().contains(x) <==> (old(map).entities.ids().contains(x)
            || x == id),
        sorted_by_depth(old(map).entities.ids(), old(arena)@) ==> sorted_by_depth(
            final(map).entities.ids(),
            final(arena)@,
        ),
        final(arena)@.len() == old(arena)@.len(),
        links_and_marks_only_changed(old(arena)@, final(arena)@),
{
    let ghost ids0 = map.entities.ids();
    let ghost nodes0 = arena@;
    entity_list::add_back(&mut map.entities, arena, id);
    let ghost nodes1 = arena@;
    proof {
        assert(map.entities.ids().last() == id);
    }
    entity_list::reorder_by_depth(&mut map.entities, arena, id);
    proof {
        lemma_add_entity(ids0, nodes0, nodes1, arena@, map.entities.ids(), id);
        let nodes2 = arena@;
        assert forall|k: int| 0 <= k < nodes2.len() implies #[trigger] nodes2[k] == (EntityNode {
            next: nodes2[k].next,
            prev: nodes2[k].prev,
            removed: nodes2[k].removed,
            ..nodes0[k]
        }) by {
            assert(nodes1[k] == (EntityNode { next: nodes1[k].next, prev: nodes1[k].prev, ..nodes0[k] }));
        }
    }
}

/// `new` differs from `old` at most in each node's list links and its
/// moved-back mark.
pub open spec fn links_and_marks_only_changed(old: Seq<EntityNode>, new: Seq<EntityNode>) -> bool {
    &&& new.len() == old.len()
    &&& forall|k: int|
        0 <= k < new.len() ==> #[trigger] new[k] == (EntityNode {
            next: new[k].next,
            prev: new[k].prev,
            removed: new[k].removed,
            ..old[k]
        })
}

proof fn lemma_add_entity(
    ids0: Seq<EntityId>,
    nodes0: Seq<EntityNode>,
    nodes1: Seq<EntityNode>,
    nodes2: Seq<EntityNode>,
    fin: Seq<EntityId>,
    id: EntityId,
)
    requires
        ids0.push(id).no_duplicates(),
        forall|i: int| 0 <= i < ids0.push(id).len() ==> #[trigger] ids0.push(id)[i] < nodes0.len(),
        links_only_changed(nodes0, nodes1),
        relinked(nodes1, nodes2, id, entity_list::moves_back(ids0.push(id), nodes1, id)),
        fin == reorder_spec(ids0.push(id), nodes1, id),
    ensures
        fin.len() == ids0.len() + 1,
        forall|x: EntityId| fin.contains(x) <==> (ids0.contains(x) || x == id),
        sorted_by_depth(ids0, nodes0) ==> sorted_by_depth(fin, nodes2),
{
    let ids1 = ids0.push(id);
    assert(ids1[ids1.len() - 1] == id);
    let p = pos_in(ids1, id);
    assert(ids1.contains(id));
    let i = choose|i: int| 0 <= i < ids1.len() && ids1[i] == id;
    assert(ids1[p] == id);
    assert(p == ids1.len() - 1);
    assert(ids1.remove(p) =~= ids0);
    lemma_reorder_sorts(ids1, nodes1, id);
    assert forall|x: EntityId| fin.contains(x) <==> (ids0.contains(x) || x == id) by {
        if ids0.contains(x) {
            let j = choose|j: int| 0 <= j < ids0.len() && ids0[j] == x;
            assert(ids1[j] == x);
        }
        if ids1.contains(x) && x != id {
            let j = choose|j: int| 0 <= j < ids1.len() && ids1[j] == x;
            assert(ids0[j] == x);
        }
    }
    if sorted_by_depth(ids0, nodes0) {
        assert forall|k: EntityId| k < nodes0.len() implies #[trigger] depth_of(nodes1, k)
            == depth_of(nodes0, k) && depth_of(nodes2, k) == depth_of(nodes1, k) by {
            assert(nodes1[k as int] == (EntityNode {
                next: nodes1[k as int].next,
                prev: nodes1[k as int].prev,
                ..nodes0[k as int]
            }));
            assert(nodes2[k as int].half_h == nodes1[k as int].half_h);
            assert(nodes2[k as int].pixel_y == nodes1[k as int].pixel_y);
        }
        assert forall|i: int| 0 <= i < ids0.len() implies depth_of(nodes0, #[trigger] ids0[i])
            == depth_of(nodes1, ids0[i]) by {
            assert(ids1[i] == ids0[i]);
        }
        lemma_sorted_same_depths(ids0, nodes0, nodes1);
        assert(sorted_by_depth(fin, nodes1));
        assert forall|i: int| 0 <= i < fin.len() implies depth_of(nodes1, #[trigger] fin[i])
            == depth_of(nodes2, fin[i]) by {
            assert(fin.contains(fin[i]));
            assert(ids1.contains(fin[i]));
            let j = choose|j: int| 0 <= j < ids1.len() && ids1[j] == fin[i];
        }
        lemma_sorted_same_depths(fin, nodes1, nodes2);
    }
}

/// `fade_step()`: one spawn-tick advance from 0, which wraps straight back to 16.
pub fn fade_step(map: &mut GameMapState)
    ensures
        *final(map) == (GameMapState { spawn_tick: 16, ..*old(map) }),
{
    map.spawn_tick = 0;
    map.spawn_tick = map.spawn_tick - 1;
    if map.spawn_tick < 0 {
        map.spawn_tick = 16;
    }
}

/// The `.map` record holds a tileset byte, the width and height in tiles, then
/// the tile grid row by row.
pub open spec fn map_record_ok(data: Seq<i8>) -> bool {
    &&& data.len() >= 3
    &&& data[1] >= 0
    &&& data[2] >= 0
    &&& 3 + (data[1] as int) * (data[2] as int) <= data.len()
}

/// The tile at row `r`, column `c` of a `.map` record.
pub open spec fn map_tile(data: Seq<i8>, r: int, c: int) -> i8 {
    data[3 + r * (data[1] as int) + c]
}

/// `load()`, for a parsed `.map` record: sets the tileset, the dimensions (16
/// pixels per tile), the tile grid, an empty occupancy grid and whether combat is
/// possible (every tileset but 1, 5, 9 and 15), clears the zone banner, and
/// records the tileset as the last one loaded. Returns whether the cached tile
/// images belong to another tileset and must be dropped.
pub fn load(map: &mut GameMapState, class_state: &mut GameMapClassState, map_data: &[i8]) -> (drop_tiles: bool)
    requires
        map_record_ok(map_data@),
    ensures
        drop_tiles == (old(class_state).last_tileset_id != map_data@[0]),
        final(class_state).last_tileset_id == map_data@[0],
        final(class_state).minimap_scale == old(class_state).minimap_scale,
        final(map).tileset_id == map_data@[0],
        final(map).width_tiles == map_data@[1] as i32,
        final(map).height_tiles == map_data@[2] as i32,
        final(map).width_px == 16 * map_data@[1],
        final(map).height_px == 16 * map_data@[2],
        final(map).combat_enabled == !(map_data@[0] == 1 || map_data@[0] == 5 || map_data@[0] == 9
            || map_data@[0] == 15),
        final(map).zone_banner_timer == 0,
        final(map).tile_grid matches Some(g) && g@.len() == map_data@[2] && (forall|r: int|
            0 <= r < g@.len() ==> (#[trigger] g@[r])@.len() == map_data@[1] && forall|c: int|
                0 <= c < map_data@[1] ==> g@[r]@[c] == map_tile(map_data@, r, c)),
        final(map).occupancy matches Some(o) && o@.len() == map_data@[2] && (forall|r: int|
            0 <= r < o@.len() ==> (#[trigger] o@[r])@.len() == map_data@[1] && forall|c: int|
                0 <= c < map_data@[1] ==> o@[r]@[c] is None),
        final(map).entities == old(map).entities,
        final(map).map_type == old(map).map_type,
        final(map).locked_camera == old(map).locked_camera,
{
    let tileset_id = map_data[0];
    let width_tiles = map_data[1] as i32;
    let height_tiles = map_data[2] as i32;
    let combat_enabled = tileset_id != 1 && tileset_id != 5 && tileset_id != 9 && tileset_id != 15;
    let w: usize = width_tiles as usize;
    let h: usize = height_tiles as usize;
    let mut occupancy: Vec<Vec<Option<EntityId>>> = Vec::new();
    let mut tile_grid: Vec<Vec<i8>> = Vec::new();
    let mut off: usize = 3;
    let mut r: usize = 0;
    let n: usize = map_data.len();
    while r < h
        invariant
            n == map_data@.len(),
            r <= h,
            w == map_data@[1],
            h == map_data@[2],
            map_record_ok(map_data@),
            off == 3 + r * w,
            tile_grid@.len() == r,
            occupancy@.len() == r,
            forall|rr: int|
                0 <= rr < r ==> (#[trigger] tile_grid@[rr])@.len() == w && forall|c: int|
                    0 <= c < w ==> tile_grid@[rr]@[c] == map_tile(map_data@, rr, c),
            forall|rr: int|
                0 <= rr < r ==> (#[trigger] occupancy@[rr])@.len() == w && forall|c: int|
                    0 <= c < w ==> occupancy@[rr]@[c] is None,
        decreases h - r,
    {
        proof {
            assert((r + 1) * w <= h * w) by (nonlinear_arith)
                requires
                    r < h,
            ;
            assert((r + 1) * w == r * w + w) by (nonlinear_arith);
            assert(3 + (map_data@[1] as int) * (map_data@[2] as int) <= map_data@.len());
            assert(h * w == (map_data@[1] as int) * (map_data@[2] as int)) by (nonlinear_arith)
                requires
                    w == map_data@[1],
                    h == map_data@[2],
            ;
            assert(off + w <= map_data@.len());
        }
        let mut row: Vec<i8> = Vec::new();
        let mut occ_row: Vec<Option<EntityId>> = Vec::new();
        let mut c: usize = 0;
        while c < w
            invariant
                n == map_data@.len(),
                c <= w,
                off == 3 + r * w,
                off + w <= map_data@.len(),
                w == map_data@[1],
                row@.len() == c,
                occ_row@.len() == c,
                forall|cc: int| 0 <= cc < c ==> row@[cc] == map_tile(map_data@, r as int, cc),
                forall|cc: int| 0 <= cc < c ==> occ_row@[cc] is None,
            decreases w - c,
        {
            row.push(map_data[off + c]);
            occ_row.push(None);
            c = c + 1;
        }
        tile_grid.push(row);
        occupancy.push(occ_row);
        off = off + w;
        r = r + 1;
    }
    let drop_tiles = class_state.last_tileset_id != tileset_id;
    class_state.last_tileset_id = tileset_id;
    map.tileset_id = tileset_id;
    map.width_tiles = width_tiles;
    map.height_tiles = height_tiles;
    map.combat_enabled = combat_enabled;
    map.occupancy = Some(occupancy);
    map.width_px = width_tiles * 16;
    map.height_px = height_tiles * 16;
    map.tile_grid = Some(tile_grid);
    map.zone_banner_timer = 0;
    drop_tiles
}

/// The camera origin the renderer uses before small-map centering: the camera
/// (when it follows the hero) or its target, fixed 30 pixels lower on a locked
/// boss arena, clamped so the view stays inside the map.
pub open spec fn camera_clamped(
    cam: i32,
    target: i32,
    follow: bool,
    locked: bool,
    locked_offset: i32,
    view: i32,
    map_px: i32,
) -> i32 {
    let a = if locked {
        target.wrapping_add(locked_offset)
    } else if follow {
        cam
    } else {
        target
    };
    let b = if a > 0 {
        0
    } else {
        a
    };
    if b < view.wrapping_sub(map_px) {
        view.wrapping_sub(map_px)
    } else {
        b
    }
}

/// The camera origin of `paint()`, with the map's one-frame camera nudge applied
/// and cleared. Returns the origin and whether the view is larger than the map,
/// in which case the map is centered and the view first filled black.
pub fn paint_view(
    map: &mut GameMapState,
    cam_x: i32,
    cam_y: i32,
    cam_target_x: i32,
    cam_target_y: i32,
    camera_follow: bool,
    view_w: i32,
    view_h: i32,
) -> (r: (i32, i32, bool))
    ensures
        ({
            let x0 = camera_clamped(cam_x, cam_target_x, camera_follow, old(map).locked_camera, 0, view_w, old(map).width_px);
            let y0 = camera_clamped(cam_y, cam_target_y, camera_follow, old(map).locked_camera, 30, view_h, old(map).height_px);
            let x1 = if x0 > 0 { spec_java_div(view_w.wrapping_sub(old(map).width_px), 2) } else { x0 };
            let y1 = if y0 > 0 { spec_java_div(view_h.wrapping_sub(old(map).height_px), 2) } else { y0 };
            &&& r.0 == x1.wrapping_add(old(map).camera_shift_x)
            &&& r.1 == y1.wrapping_add(old(map).camera_shift_y)
            &&& r.2 == (x0 > 0 || y0 > 0)
        }),
        *final(map) == (GameMapState { camera_shift_x: 0, camera_shift_y: 0, ..*old(map) }),
{
    let mut i = if camera_follow { cam_x } else { cam_target_x };
    let mut i2 = if camera_follow { cam_y } else { cam_target_y };
    if map.locked_camera {
        i = cam_target_x;
        i2 = cam_target_y.wrapping_add(30);
    }
    if i > 0 {
        i = 0;
    }
    if i < view_w.wrapping_sub(map.width_px) {
        i = view_w.wrapping_sub(map.width_px);
    }
    if i2 > 0 {
        i2 = 0;
    }
    if i2 < view_h.wrapping_sub(map.height_px) {
        i2 = view_h.wrapping_sub(map.height_px);
    }
    let mut fill = false;
    if i > 0 {
        i = java_div(view_w.wrapping_sub(map.width_px), 2).unwrap();
        fill = true;
    }
    if i2 > 0 {
        i2 = java_div(view_h.wrapping_sub(map.height_px), 2).unwrap();
        fill = true;
    }
    if map.camera_shift_x != 0 {
        i = i.wrapping_add(map.camera_shift_x);
        map.camera_shift_x = 0;
    }
    if map.camera_shift_y != 0 {
        i2 = i2.wrapping_add(map.camera_shift_y);
        map.camera_shift_y = 0;
    }
    (i, i2, fill)
}

/// The visible tile window of `draw_tiles` for the origin (`i`, `i2`) and the view
/// `i3` x `i4`: first and last column and row, clamped to the map.
pub fn tile_window(i: i32, i2: i32, i3: i32, i4: i32, width_tiles: i32, height_tiles: i32) -> (r: (
    i32,
    i32,
    i32,
    i32,
))
    ensures
        ({
            let c0 = spec_java_div(0i32.wrapping_sub(i), 16);
            let r0 = spec_java_div(0i32.wrapping_sub(i2), 16);
            let c1 = spec_java_div(i3.wrapping_sub(i).wrapping_sub(1), 16);
            let r1 = spec_java_div(i4.wrapping_sub(i2).wrapping_sub(1), 16);
            &&& r.0 == if c0 < 0 { 0 } else { c0 }
            &&& r.1 == if r0 < 0 { 0 } else { r0 }
            &&& r.2 == if c1 >= width_tiles { width_tiles.wrapping_sub(1) } else { c1 }
            &&& r.3 == if r1 >= height_tiles { height_tiles.wrapping_sub(1) } else { r1 }
        }),
{
    let mut i5 = java_div(0i32.wrapping_sub(i), 16).unwrap();
    let mut i6 = java_div(0i32.wrapping_sub(i2), 16).unwrap();
    let mut i7 = java_div(i3.wrapping_sub(i).wrapping_sub(1), 16).unwrap();
    let mut i8 = java_div(i4.wrapping_sub(i2).wrapping_sub(1), 16).unwrap();
    if i5 < 0 {
        i5 = 0;
    }
    if i6 < 0 {
        i6 = 0;
    }
    if i7 >= width_tiles {
        i7 = width_tiles.wrapping_sub(1);
    }
    if i8 >= height_tiles {
        i8 = height_tiles.wrapping_sub(1);
    }
    (i5, i6, i7, i8)
}

/// The tiles of row `r` from column `c` to `c_end`, the first at `(x, y)` and
/// each next one 16 pixels right.
pub open spec fn tile_row_ops(grid: Seq<Vec<i8>>, r: int, c: int, c_end: int, x: i32, y: i32) -> Seq<GlyphOp>
    decreases c_end + 1 - c,
{
    if c > c_end {
        Seq::empty()
    } else {
        seq![GlyphOp::DrawTile(grid[r]@[c] as i32, x, y)] + tile_row_ops(grid, r, c + 1, c_end, wadd(x, 16), y)
    }
}

/// The tiles of rows `r` to `r_end` and columns `c0` to `c_end` with the map's
/// top-left corner at `(i, i2)`: row by row, each cell 16 pixels square.
pub open spec fn tile_rows_ops(grid: Seq<Vec<i8>>, r: i32, r_end: i32, c0: i32, c_end: i32, i: i32, i2: i32) -> Seq<GlyphOp>
    decreases r_end + 1 - r,
{
    if r > r_end || r == i32::MAX {
        Seq::empty()
    } else {
        tile_row_ops(grid, r as int, c0 as int, c_end as int, wadd(i, wmul(c0, 16)), wadd(i2, wmul(r, 16)))
            + tile_rows_ops(grid, (r + 1) as i32, r_end, c0, c_end, i, i2)
    }
}

/// The tile window `(c0, r0, c1, r1)` lies inside the tile grid.
pub open spec fn window_in_grid(grid: Seq<Vec<i8>>, w: (i32, i32, i32, i32)) -> bool {
    forall|r: int| w.1 <= r <= w.3 ==> 0 <= r < grid.len() && (w.0 <= w.2 ==> w.2 < (#[trigger] grid[r])@.len())
}

/// The window [`tile_window`] picks.
pub open spec fn spec_tile_window(i: i32, i2: i32, i3: i32, i4: i32, width_tiles: i32, height_tiles: i32) -> (i32, i32, i32, i32) {
    let c0 = spec_java_div(0i32.wrapping_sub(i), 16);
    let r0 = spec_java_div(0i32.wrapping_sub(i2), 16);
    let c1 = spec_java_div(i3.wrapping_sub(i).wrapping_sub(1), 16);
    let r1 = spec_java_div(i4.wrapping_sub(i2).wrapping_sub(1), 16);
    (
        if c0 < 0 { 0 } else { c0 },
        if r0 < 0 { 0 } else { r0 },
        if c1 >= width_tiles { width_tiles.wrapping_sub(1) } else { c1 },
        if r1 >= height_tiles { height_tiles.wrapping_sub(1) } else { r1 },
    )
}

/// `draw_tiles(graphics, i, i2, i3, i4)`: the clip set to the `i3` x `i4` view,
/// then every tile of the visible window (see [`tile_window`]) with the map's
/// top-left corner at `(i, i2)`.
pub fn draw_tiles(map: &GameMapState, i: i32, i2: i32, i3: i32, i4: i32) -> (ops: Vec<GlyphOp>)
    requires
        map.tile_grid is Some,
        window_in_grid(map.tile_grid->0@, spec_tile_window(i, i2, i3, i4, map.width_tiles, map.height_tiles)),
        spec_tile_window(i, i2, i3, i4, map.width_tiles, map.height_tiles).2 < i32::MAX,
        spec_tile_window(i, i2, i3, i4, map.width_tiles, map.height_tiles).3 < i32::MAX,
    ensures
        ({
            let w = spec_tile_window(i, i2, i3, i4, map.width_tiles, map.height_tiles);
            ops@ == seq![GlyphOp::SetClip(0, 0, i3, i4)] + tile_rows_ops(map.tile_grid->0@, w.1, w.3, w.0, w.2, i, i2)
        }),
{
    let (c0, r0, c1, r1) = tile_window(i, i2, i3, i4, map.width_tiles, map.height_tiles);
    let grid = match &map.tile_grid {
        Some(g) => g,
        None => {
            return Vec::new();
        },
    };
    let ghost w = (c0, r0, c1, r1);
    let mut ops: Vec<GlyphOp> = Vec::new();
    ops.push(GlyphOp::SetClip(0, 0, i3, i4));
    let ghost head = ops@;
    let ghost total = tile_rows_ops(grid@, r0, r1, c0, c1, i, i2);
    let mut r: i32 = r0;
    while r <= r1
        invariant
            w == spec_tile_window(i, i2, i3, i4, map.width_tiles, map.height_tiles),
            w == (c0, r0, c1, r1),
            map.tile_grid == Some(*grid),
            window_in_grid(grid@, w),
            0 <= r0 <= r,
            r <= r1 + 1 || r1 < r0,
            r1 < i32::MAX && c1 < i32::MAX,
            0 <= c0,
            total == tile_rows_ops(grid@, r0, r1, c0, c1, i, i2),
            head + total == ops@ + tile_rows_ops(grid@, r, r1, c0, c1, i, i2),
        decreases r1 + 1 - r,
    {
        let y = i2.wrapping_add(r.wrapping_mul(16));
        let x0 = i.wrapping_add(c0.wrapping_mul(16));
        let ghost row_start = ops@;
        let mut x = x0;
        let mut c: i32 = c0;
        while c <= c1
            invariant
                w == (c0, r0, c1, r1),
                window_in_grid(grid@, w),
                r0 <= r <= r1,
                r1 < i32::MAX && c1 < i32::MAX,
                0 <= c0 <= c,
                c <= c1 + 1 || c1 < c0,
                row_start + tile_row_ops(grid@, r as int, c0 as int, c1 as int, x0, y) == ops@ + tile_row_ops(
                    grid@,
                    r as int,
                    c as int,
                    c1 as int,
                    x,
                    y,
                ),
            decreases c1 + 1 - c,
        {
            assert(0 <= r < grid@.len() && 0 <= c < grid@[r as int]@.len());
            let t = grid[r as usize][c as usize] as i32;
            let ghost before = ops@;
            ops.push(GlyphOp::DrawTile(t, x, y));
            assert(before + tile_row_ops(grid@, r as int, c as int, c1 as int, x, y) =~= ops@ + tile_row_ops(
                grid@,
                r as int,
                c + 1,
                c1 as int,
                wadd(x, 16),
                y,
            ));
            x = x.wrapping_add(16);
            c = c + 1;
        }
        assert(tile_row_ops(grid@, r as int, c as int, c1 as int, x, y) =~= Seq::<GlyphOp>::empty());
        assert(ops@ =~= row_start + tile_row_ops(grid@, r as int, c0 as int, c1 as int, x0, y));
        assert(r < i32::MAX);
        assert(row_start + tile_rows_ops(grid@, r, r1, c0, c1, i, i2) =~= ops@ + tile_rows_ops(
            grid@,
            (r + 1) as i32,
            r1,
            c0,
            c1,
            i,
            i2,
        ));
        r = r + 1;
    }
    assert(ops@ =~= head + total);
    ops
}

/// The heroes among the entities from position `k` of the draw list `ids`,
/// in list order.
pub open spec fn heroes_from(ids: Seq<EntityId>, nodes: Seq<EntityNode>, k: int) -> Seq<EntityId>
    decreases ids.len() - k,
{
    if k < 0 || k >= ids.len() {
        Seq::empty()
    } else {
        (if nodes[ids[k] as int].kind == EntityKind::Hero { seq![ids[k]] } else { Seq::empty() }) + heroes_from(
            ids,
            nodes,
            k + 1,
        )
    }
}

/// `draw_entities(graphics, i, i2)`: walks the draw list from its head along
/// the links, front to back, and returns the entities painted there in that
/// order (the heroes, by their own routine; the other kinds draw nothing on
/// this pass).
pub fn draw_entities(map: &GameMapState, arena: &EntityArena) -> (r: Vec<EntityId>)
    requires
        map.entities.wf(arena@),
    ensures
        r@ == heroes_from(map.entities.ids(), arena@, 0),
{
    let ghost ids = map.entities.ids();
    let mut out: Vec<EntityId> = Vec::new();
    let mut cursor = map.entities.head;
    let ghost mut k: int = 0;
    while cursor.is_some()
        invariant
            map.entities.wf(arena@),
            ids == map.entities.ids(),
            0 <= k <= ids.len(),
            cursor == (if k < ids.len() { Some(ids[k]) } else { None::<EntityId> }),
            out@ + heroes_from(ids, arena@, k) == heroes_from(ids, arena@, 0),
        decreases ids.len() - k,
    {
        let id = cursor.unwrap();
        let n = arena.node(id);
        let ghost before = out@;
        if n.kind == EntityKind::Hero {
            out.push(id);
        }
        assert(before + heroes_from(ids, arena@, k) =~= out@ + heroes_from(ids, arena@, k + 1));
        cursor = n.next;
        proof {
            k = k + 1;
        }
    }
    assert(heroes_from(ids, arena@, k) =~= Seq::<EntityId>::empty());
    assert(out@ =~= out@ + heroes_from(ids, arena@, k));
    out
}

} // verus!
