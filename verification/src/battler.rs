//! The combatant base shared by the hero, enemies and town folk: the movement and
//! animation state, and the footprint an actor stamps into the map's occupancy
//! grid. Tiles are 16 pixels and actors step 8 pixels at a time.

use vstd::prelude::*;
use crate::entity::{EntityArena, EntityId, EntityNode};
use crate::game_map::GameMapState;
use crate::floater::Overlay;

verus! {

/// `state == 1`: idle or walking in place.
pub const STATE_IDLE: i8 = 1;

/// `state == 2`: mid sub-tile step.
pub const STATE_STEPPING: i8 = 2;

/// `state == 3`: attacking.
pub const STATE_ATTACKING: i8 = 3;

/// `state == 4`: knockback.
pub const STATE_KNOCKBACK: i8 = 4;

/// `state == 5`: dying.
pub const STATE_DYING: i8 = 5;

/// `state == 6`: dead.
pub const STATE_DEAD: i8 = 6;

/// A status-effect icon attached to an actor.
pub struct StatusIconRef {
    /// The status shown (0: freeze).
    pub kind: i8,
}

/// The combatant base fields.
pub struct BattlerData {
    /// Floaters (damage numbers, sparks, icons) over this actor.
    pub floaters: Vec<Overlay>,
    /// Active status-effect icons.
    pub statuses: Vec<StatusIconRef>,
    /// Movement/animation state (see the `STATE_*` constants).
    pub state: i8,
    /// Facing: 1 up, 2 down, 3 left, 4 right.
    pub facing: i8,
    /// Direction committed for the current step.
    pub move_dir: i8,
    /// Animation frame counter (-1 before the first frame).
    pub anim_frame: i8,
    /// Knockback countdown.
    pub knockback_timer: i8,
}

impl BattlerData {
    /// A fresh combatant: idle, facing and stepping down, no frame yet, no
    /// overlays.
    pub fn new() -> (b: BattlerData)
        ensures
            b.floaters@.len() == 0 && b.statuses@.len() == 0,
            b.state == STATE_IDLE && b.facing == 2 && b.move_dir == 2,
            b.anim_frame == -1 && b.knockback_timer == 0,
    {
        BattlerData {
            floaters: Vec::new(),
            statuses: Vec::new(),
            state: STATE_IDLE,
            facing: 2,
            move_dir: 2,
            anim_frame: -1,
            knockback_timer: 0,
        }
    }
}

impl Default for BattlerData {
    fn default() -> (b: Self)
        ensures
            b.floaters@.len() == 0 && b.statuses@.len() == 0,
            b.state == STATE_IDLE && b.facing == 2 && b.move_dir == 2,
            b.anim_frame == -1 && b.knockback_timer == 0,
    {
        BattlerData::new()
    }
}

/// `set_state(new_state)`: enters `new_state` and restarts the animation.
pub fn set_state(b: &mut BattlerData, new_state: i8)
    ensures
        final(b).state == new_state,
        final(b).anim_frame == -1,
        final(b).facing == old(b).facing,
        final(b).move_dir == old(b).move_dir,
        final(b).knockback_timer == old(b).knockback_timer,
        final(b).floaters == old(b).floaters,
        final(b).statuses == old(b).statuses,
{
    b.anim_frame = -1;
    b.state = new_state;
}

/// `set_facing(dir)`: faces `dir` and commits it as the next step direction.
pub fn set_facing(b: &mut BattlerData, dir: i8)
    ensures
        final(b).facing == dir,
        final(b).move_dir == dir,
        final(b).state == old(b).state,
        final(b).anim_frame == old(b).anim_frame,
        final(b).knockback_timer == old(b).knockback_timer,
        final(b).floaters == old(b).floaters,
        final(b).statuses == old(b).statuses,
{
    b.facing = dir;
    b.move_dir = dir;
}

/// Cell (`r`, `c`) is part of the footprint of `n`: `layer` tiles from its tile,
/// plus the row below when it is off-grid vertically, else the column to the
/// right when it is off-grid horizontally.
pub open spec fn occupies(n: EntityNode, r: int, c: int) -> bool {
    let ty = n.tile_y as int;
    let tx = n.tile_x as int;
    let w = n.layer as int;
    ||| r == ty && tx <= c < tx + w
    ||| n.off_grid_y && r == ty + 1 && tx <= c < tx + w
    ||| !n.off_grid_y && n.off_grid_x && r == ty && tx + 1 <= c < tx + 1 + w
}

/// The footprint of `n` lies inside the grid `occ`.
pub open spec fn footprint_fits(occ: Seq<Vec<Option<EntityId>>>, n: EntityNode) -> bool {
    n.layer <= 0 || {
        &&& n.tile_x >= 0
        &&& 0 <= n.tile_y < occ.len()
        &&& occ[n.tile_y as int]@.len() >= n.tile_x + n.layer + if !n.off_grid_y && n.off_grid_x {
            1int
        } else {
            0int
        }
        &&& n.off_grid_y ==> n.tile_y + 1 < occ.len() && occ[n.tile_y + 1]@.len() >= n.tile_x
            + n.layer
    }
}

fn set_cell(occ: &mut Vec<Vec<Option<EntityId>>>, r: usize, c: usize, v: Option<EntityId>)
    requires
        r < old(occ)@.len(),
        c < old(occ)@[r as int]@.len(),
    ensures
        final(occ)@.len() == old(occ)@.len(),
        forall|rr: int|
            0 <= rr < final(occ)@.len() ==> (#[trigger] final(occ)@[rr])@.len() == old(occ)@[rr]@.len(),
        forall|rr: int, cc: int|
            0 <= rr < final(occ)@.len() && 0 <= cc < final(occ)@[rr]@.len() ==> #[trigger] final(occ)@[rr]@[cc] == if rr == r && cc == c {
                v
            } else {
                old(occ)@[rr]@[cc]
            },
{
    occ[r].set(c, v);
}

/// `set_occupancy()`: stamps entity `id` into every cell of its footprint in the
/// map's occupancy grid.
pub fn set_occupancy(map: &mut GameMapState, arena: &EntityArena, id: EntityId)
    requires
        id < arena@.len(),
        old(map).occupancy is Some,
        footprint_fits(old(map).occupancy->0@, arena@[id as int]),
    ensures
        final(map).occupancy is Some,
        final(map).occupancy->0@.len() == old(map).occupancy->0@.len(),
        forall|r: int|
            0 <= r < final(map).occupancy->0@.len() ==> (#[trigger] final(map).occupancy->0@[r])@.len()
                == old(map).occupancy->0@[r]@.len(),
        forall|r: int, c: int|
            0 <= r < final(map).occupancy->0@.len() && 0 <= c < final(map).occupancy->0@[r]@.len()
                ==> #[trigger] final(map).occupancy->0@[r]@[c] == if occupies(arena@[id as int], r, c) {
                Some(id)
            } else {
                old(map).occupancy->0@[r]@[c]
            },
        final(map).entities == old(map).entities,
        final(map).tile_grid == old(map).tile_grid,
        *final(map) == (GameMapState { occupancy: final(map).occupancy, ..*old(map) }),
{
    let n: EntityNode = *arena.node(id);
    let layer = n.layer;
    let tile_x = n.tile_x as i32;
    let tile_y = n.tile_y as i32;
    let mut occ = match map.occupancy.take() {
        Some(o) => o,
        None => Vec::new(),
    };
    let ghost occ0 = occ@;
    let mut col: i8 = 0;
    while col < layer
        invariant
            0 <= col,
            layer > 0 ==> col <= layer,
            layer <= 0 ==> col == 0,
            layer == n.layer,
            id < arena@.len(),
            n == arena@[id as int],
            tile_x == n.tile_x,
            tile_y == n.tile_y,
            col < layer ==> footprint_fits(occ0, n),
            occ@.len() == occ0.len(),
            forall|r: int| 0 <= r < occ@.len() ==> (#[trigger] occ@[r])@.len() == occ0[r]@.len(),
            forall|r: int, c: int|
                0 <= r < occ@.len() && 0 <= c < occ@[r]@.len() ==> #[trigger] occ@[r]@[c] == if occupies(
                    EntityNode { layer: col, ..n },
                    r,
                    c,
                ) {
                    Some(id)
                } else {
                    occ0[r]@[c]
                },
        decreases layer - col,
    {
        let x: usize = (tile_x + col as i32) as usize;
        let y: usize = tile_y as usize;
        set_cell(&mut occ, y, x, Some(id));
        if n.off_grid_y {
            set_cell(&mut occ, y + 1, x, Some(id));
        } else if n.off_grid_x {
            set_cell(&mut occ, y, x + 1, Some(id));
        }
        col = col + 1;
    }
    assert(occ0 == old(map).occupancy->0@);
    assert(col >= layer);
    assert(layer > 0 ==> col == layer);
    assert forall|r: int, c: int| occupies(EntityNode { layer: col, ..n }, r, c) == occupies(n, r, c) by {
        let m = EntityNode { layer: col, ..n };
        assert(m.tile_x == n.tile_x && m.tile_y == n.tile_y && m.off_grid_x == n.off_grid_x && m.off_grid_y == n.off_grid_y);
    }
    map.occupancy = Some(occ);
}


/// The occupancy cell `distance` tiles from `n` in `direction` (1 up, 2 down,
/// 3 left, 4 right), or `None` past the map edge or for another direction.
pub open spec fn neighbor_cell(n: EntityNode, direction: i8, distance: i8, width: i32, height: i32) -> Option<(int, int)> {
    let tx = n.tile_x as int;
    let ty = n.tile_y as int;
    let d = distance as int;
    if direction == 1 {
        if ty - d < 0 { None } else { Some((ty - d, tx)) }
    } else if direction == 2 {
        if ty + d >= height { None } else { Some((ty + d, tx)) }
    } else if direction == 3 {
        if tx - d < 0 { None } else { Some((ty, tx - d)) }
    } else if direction == 4 {
        if tx + d >= width { None } else { Some((ty, tx + d)) }
    } else {
        None
    }
}

/// Cell (`r`, `c`) lies inside the grid `occ`.
pub open spec fn cell_in(occ: Seq<Vec<Option<EntityId>>>, r: int, c: int) -> bool {
    0 <= r < occ.len() && 0 <= c < occ[r]@.len()
}

/// `neighbor(direction, distance)`: whoever occupies the tile `distance` away
/// in `direction`, or `None` past the map edge, for an empty tile or another
/// direction.
pub fn neighbor(map: &GameMapState, arena: &EntityArena, id: EntityId, direction: i8, distance: i8) -> (r: Option<EntityId>)
    requires
        id < arena@.len(),
        map.occupancy is Some,
        neighbor_cell(arena@[id as int], direction, distance, map.width_tiles, map.height_tiles) matches Some(cell)
            ==> cell_in(map.occupancy->0@, cell.0, cell.1),
    ensures
        r == match neighbor_cell(arena@[id as int], direction, distance, map.width_tiles, map.height_tiles) {
            Some(cell) => map.occupancy->0@[cell.0]@[cell.1],
            None => None,
        },
{
    let n: EntityNode = *arena.node(id);
    let tx = n.tile_x as i32;
    let ty = n.tile_y as i32;
    let d = distance as i32;
    let occ = match &map.occupancy {
        Some(o) => o,
        None => {
            return None;
        },
    };
    if direction == 1 {
        if ty - d < 0 {
            None
        } else {
            occ[(ty - d) as usize][tx as usize]
        }
    } else if direction == 2 {
        if ty as i64 + d as i64 >= map.height_tiles as i64 {
            None
        } else {
            occ[(ty + d) as usize][tx as usize]
        }
    } else if direction == 3 {
        if tx - d < 0 {
            None
        } else {
            occ[ty as usize][(tx - d) as usize]
        }
    } else if direction == 4 {
        if tx as i64 + d as i64 >= map.width_tiles as i64 {
            None
        } else {
            occ[ty as usize][(tx + d) as usize]
        }
    } else {
        None
    }
}

/// The scan of `entity_in_dir(dir, wanted)` from column `col` of the `layer`
/// tiles next to `n` in direction `dir`: the first occupant other than `self_id`
/// that is `wanted` (or any occupant when nothing is wanted), or `None`.
pub open spec fn scan_dir(
    occ: Seq<Vec<Option<EntityId>>>,
    n: EntityNode,
    self_id: EntityId,
    dir: i8,
    wanted: Option<EntityId>,
    col: int,
) -> Option<EntityId>
    decreases n.layer - col,
{
    if col >= n.layer {
        None
    } else {
        let x = n.tile_x + crate::directions::DIR_DX@[dir as int] + col;
        let y = n.tile_y + crate::directions::DIR_DY@[dir as int];
        let occupant = occ[y]@[x];
        if occupant != Some(self_id) && ((wanted is None && occupant is Some) || (wanted is Some && occupant == wanted)) {
            occupant
        } else {
            scan_dir(occ, n, self_id, dir, wanted, col + 1)
        }
    }
}

/// Column `col` of the `entity_in_dir` scan lies inside the map.
pub open spec fn scan_col_fits(map: GameMapState, n: EntityNode, dir: i8, col: int) -> bool {
    let x = n.tile_x + crate::directions::DIR_DX@[dir as int] + col;
    let y = n.tile_y + crate::directions::DIR_DY@[dir as int];
    &&& 0 <= x < map.width_tiles
    &&& 0 <= y < map.height_tiles
    &&& cell_in(map.occupancy->0@, y, x)
}

/// The tiles `entity_in_dir` scans lie inside the map (its assertions hold).
pub open spec fn dir_scan_fits(map: GameMapState, n: EntityNode, dir: i8) -> bool {
    &&& 0 <= dir < 9
    &&& map.occupancy is Some
    &&& forall|col: int| 0 <= col < n.layer ==> #[trigger] scan_col_fits(map, n, dir, col)
}

/// `entity_in_dir(dir, wanted)`: scans the `layer` tiles next to the entity in
/// direction `dir`; with nothing wanted returns the first other occupant,
/// else returns `wanted` when it occupies one of them.
pub fn entity_in_dir(map: &GameMapState, arena: &EntityArena, id: EntityId, dir: i8, wanted: Option<EntityId>) -> (r: Option<EntityId>)
    requires
        id < arena@.len(),
        dir_scan_fits(*map, arena@[id as int], dir),
    ensures
        r == scan_dir(map.occupancy->0@, arena@[id as int], id, dir, wanted, 0),
{
    let n: EntityNode = *arena.node(id);
    let occ = match &map.occupancy {
        Some(o) => o,
        None => {
            return None;
        },
    };
    let dx = crate::directions::DIR_DX[dir as usize] as i32;
    let dy = crate::directions::DIR_DY[dir as usize] as i32;
    let mut col: i32 = 0;
    while col < n.layer as i32
        invariant
            0 <= col,
            n.layer <= 0 ==> col == 0,
            n.layer > 0 ==> col <= n.layer,
            n == arena@[id as int],
            dir_scan_fits(*map, n, dir),
            map.occupancy == Some(*occ),
            dx == crate::directions::DIR_DX@[dir as int],
            dy == crate::directions::DIR_DY@[dir as int],
            scan_dir(occ@, n, id, dir, wanted, 0) == scan_dir(occ@, n, id, dir, wanted, col as int),
        decreases n.layer - col,
    {
        let x = n.tile_x as i32 + dx + col;
        let y = n.tile_y as i32 + dy;
        assert(scan_col_fits(*map, n, dir, col as int));
        let occupant = occ[y as usize][x as usize];
        if occupant != Some(id) {
            if wanted.is_none() && occupant.is_some() {
                return occupant;
            }
            if wanted.is_some() && occupant == wanted {
                return occupant;
            }
        }
        col = col + 1;
    }
    None
}

} // verus!
