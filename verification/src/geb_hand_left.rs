//! Geb's left hand: a tall boss that slides along its column to line up with
//! the hero's row and slams a box of tiles in front of it, shaking the camera.
//! Its attack delay is dropped after a long wait and restored after a landed
//! slam.

use vstd::prelude::*;
use crate::battler::{BattlerData, STATE_IDLE, STATE_STEPPING};
use crate::boss::{self, boss_animated, boss_updated_ai, BossData, BossSubclass};
use crate::enemy::{self, attacking, EnemyData, Strike};
use crate::entity::{sync_tile, EntityArena, EntityId, EntityNode};
use crate::byte_util::{ByteUtilState, JavaRandom};
use crate::jvm::spec_ishr;
use crate::game_map::GameMapState;
use crate::bitmap_font::GlyphOp;

verus! {

/// The hand's own state: ticks since its last landed slam.
pub struct GebHandLeftData {
    /// Ticks since the last landed slam; past 100 the attack delay is dropped.
    pub ticks_since_hit: i8,
}

/// The hero's row relative to the hand's slam rows: the hand stands five rows
/// below the top of its reach and slams from three rows below that.
pub open spec fn hero_row_offset(arena: Seq<EntityNode>, id: EntityId, hero: EntityId) -> int {
    arena[hero as int].tile_y - ((arena[id as int].tile_y - 5) + 3)
}

/// The hand slams now: recovered, the hero within two rows above to three
/// below its slam row, and no more than five columns to the right.
pub open spec fn hand_slams(e: EnemyData, arena: Seq<EntityNode>, id: EntityId, hero: EntityId) -> bool {
    let off = hero_row_offset(arena, id, hero);
    &&& e.hurt_cooldown == 0
    &&& -2 <= off <= 3
    &&& arena[hero as int].tile_x <= arena[id as int].tile_x + 5
}

/// `e` in state `s` facing (and stepping) `dir`.
pub open spec fn heading(e: EnemyData, s: i8, dir: i8) -> EnemyData {
    EnemyData { battler: BattlerData { state: s, facing: dir, move_dir: dir, ..e.battler }, ..e }
}

/// `try_attack()` of the hand: slam when it can; else, with the attack cooldown
/// spent, slide down (hero below), up (hero above) or hold facing down.
pub open spec fn hand_tried(e: EnemyData, arena: Seq<EntityNode>, id: EntityId, hero: EntityId) -> EnemyData {
    let off = hero_row_offset(arena, id, hero);
    if hand_slams(e, arena, id, hero) {
        attacking(e)
    } else if e.attack_cooldown == 0 {
        if off > 3 {
            heading(e, STATE_STEPPING, 2)
        } else if off < -2 {
            heading(e, STATE_STEPPING, 1)
        } else {
            heading(e, STATE_IDLE, 2)
        }
    } else {
        e
    }
}

/// `try_attack()`: slam the hero when it is lined up in front (see
/// [`hand_slams`]); else, once the attack cooldown is spent, slide toward the
/// hero's row or hold.
pub fn try_attack(e: &mut EnemyData, arena: &EntityArena, id: EntityId, hero: EntityId)
    requires
        id < arena@.len(),
        hero < arena@.len(),
    ensures
        *final(e) == hand_tried(*old(e), arena@, id, hero),
{
    let h = arena.node(hero);
    let me = arena.node(id);
    let hero_tx = h.tile_x as i32;
    let hero_ty = h.tile_y as i32;
    let tile_x = me.tile_x as i32;
    let tile_y = me.tile_y as i32;
    let off = hero_ty - (tile_y - 5 + 3);
    if e.hurt_cooldown == 0 && off >= -2 && off <= 3 && hero_tx <= tile_x + 5 {
        enemy::begin_attack(e);
        return;
    }
    if e.attack_cooldown == 0 {
        if off > 3 {
            enemy::set_state(e, STATE_STEPPING);
            crate::battler::set_facing(&mut e.battler, 2);
        } else if off < -2 {
            enemy::set_state(e, STATE_STEPPING);
            crate::battler::set_facing(&mut e.battler, 1);
        } else {
            enemy::set_state(e, STATE_IDLE);
            crate::battler::set_facing(&mut e.battler, 2);
        }
    }
}

/// The camera nudge on frame `f` of the slam: frames 6, 7 and 8 shake it.
pub open spec fn slam_shake(f: i8) -> Option<(i32, i32)> {
    if f == 6 {
        Some((2, 3))
    } else if f == 7 {
        Some((-3i32, -1i32))
    } else if f == 8 {
        Some((2i32, -3i32))
    } else {
        None
    }
}

/// The slam of frame 5 lands: the hero stands in the box two to five columns
/// right of the hand and one to six rows below the top of its reach (bounds
/// kept to bytes).
pub open spec fn slam_lands(arena: Seq<EntityNode>, id: EntityId, hero: EntityId) -> bool {
    let tx = arena[id as int].tile_x as int;
    let ty = arena[id as int].tile_y as int;
    let hx = arena[hero as int].tile_x;
    let hy = arena[hero as int].tile_y;
    &&& (tx + 2) as i8 <= hx <= (tx + 5) as i8
    &&& (ty - 5 + 1) as i8 <= hy <= (ty - 5 + 6) as i8
}

/// `resolve_attack()` of the hand from `b` on `map`: the hand, the map and what
/// landed.
pub open spec fn hand_resolved(
    b: BossData,
    map: GameMapState,
    arena: Seq<EntityNode>,
    id: EntityId,
    hero: EntityId,
) -> (BossData, GameMapState, Strike) {
    let f = b.enemy.battler.anim_frame;
    let map1 = match slam_shake(f) {
        Some(shift) => GameMapState { camera_shift_x: shift.0, camera_shift_y: shift.1, ..map },
        None => map,
    };
    if f == 5 && slam_lands(arena, id, hero) {
        (
            BossData {
                enemy: EnemyData {
                    stats: crate::enemy_type::EnemyTypeData { attack_delay: 2, ..b.enemy.stats },
                    ..b.enemy
                },
                subclass: BossSubclass::GebHandLeft(GebHandLeftData { ticks_since_hit: 0 }),
                ..b
            },
            map1,
            Strike::Melee,
        )
    } else {
        (b, map1, Strike::Miss)
    }
}

/// `resolve_attack()` of the hand: shakes the camera on frames 6 to 8; on frame
/// 5 a slam that lands on the hero resets the wait and restores the attack
/// delay of 2, and is reported as a close strike.
pub fn resolve_attack(b: &mut BossData, map: &mut GameMapState, arena: &EntityArena, id: EntityId, hero: EntityId) -> (r: Strike)
    requires
        old(b).subclass is GebHandLeft,
        id < arena@.len(),
        hero < arena@.len(),
    ensures
        (*final(b), *final(map), r) == hand_resolved(*old(b), *old(map), arena@, id, hero),
{
    let f = b.enemy.battler.anim_frame;
    if f == 6 {
        map.camera_shift_x = 2;
        map.camera_shift_y = 3;
    } else if f == 7 {
        map.camera_shift_x = -3;
        map.camera_shift_y = -1;
    } else if f == 8 {
        map.camera_shift_x = 2;
        map.camera_shift_y = -3;
    }
    if f == 5 {
        let me = arena.node(id);
        let h = arena.node(hero);
        let tile_x = me.tile_x as i32;
        let tile_y = me.tile_y as i32;
        let min_x = (tile_x + 2) as i8;
        let max_x = (tile_x + 5) as i8;
        let min_y = (tile_y - 5 + 1) as i8;
        let max_y = (tile_y - 5 + 6) as i8;
        if h.tile_x < min_x || h.tile_x > max_x || h.tile_y < min_y || h.tile_y > max_y {
            return Strike::Miss;
        }
        b.subclass = BossSubclass::GebHandLeft(GebHandLeftData { ticks_since_hit: 0 });
        b.enemy.stats.attack_delay = 2;
        return Strike::Melee;
    }
    Strike::Miss
}

/// The hand one frame on: the frame and the wait since its last landed slam
/// advance (bytes), and past a wait of 100 its attack delay is dropped.
pub open spec fn hand_ticked(b: BossData) -> BossData {
    let t = match b.subclass {
        BossSubclass::GebHandLeft(d) => (d.ticks_since_hit + 1) as i8,
        _ => 0i8,
    };
    let e = enemy::with_frame(b.enemy, (b.enemy.battler.anim_frame + 1) as i8);
    let e2 = if t > 100 {
        EnemyData { stats: crate::enemy_type::EnemyTypeData { attack_delay: 0, ..e.stats }, ..e }
    } else {
        e
    };
    BossData { enemy: e2, subclass: BossSubclass::GebHandLeft(GebHandLeftData { ticks_since_hit: t }), ..b }
}

/// The hand's node after a step: while stepping (state 2) it slides 8 pixels
/// up (facing 1) or down (facing 2) and its tile is re-derived.
pub open spec fn hand_slid(n: EntityNode, e: EnemyData) -> EntityNode {
    if e.battler.state == STATE_STEPPING {
        let py: i16 = if e.battler.facing == 1 {
            (n.pixel_y - 8) as i16
        } else if e.battler.facing == 2 {
            (n.pixel_y + 8) as i16
        } else {
            n.pixel_y
        };
        EntityNode {
            pixel_y: py,
            tile_x: spec_ishr(n.pixel_x as i32, 4) as i8,
            tile_y: spec_ishr(py as i32, 4) as i8,
            off_grid_x: (n.pixel_x as i32 & 15) != 0,
            off_grid_y: (py as i32 & 15) != 0,
            ..n
        }
    } else {
        n
    }
}

/// `update()` of the hand: one frame on (see [`hand_ticked`]), the boss AI,
/// the slide toward the hero's row (see [`hand_slid`]), then the animation.
/// Returns whether the hand died (and is to leave the map) and what landed.
pub fn update(
    b: &mut BossData,
    map: &mut GameMapState,
    arena: &mut EntityArena,
    id: EntityId,
    hero: EntityId,
    rng: &mut JavaRandom,
    byte_util: &mut ByteUtilState,
) -> (r: (bool, Strike))
    requires
        old(b).subclass is GebHandLeft,
        id < old(arena)@.len(),
        hero < old(arena)@.len(),
    ensures
        ({
            let b1 = hand_ticked(*old(b));
            let u = boss_updated_ai(b1.subclass.spec_kind(), b1.enemy, *old(map), old(arena)@, id, hero, old(rng)@, old(byte_util).rng@);
            let arena2 = old(arena)@.update(id as int, hand_slid(old(arena)@[id as int], u.0));
            let a = boss_animated(BossData { enemy: u.0, ..b1 }, *old(map), arena2, id, hero);
            &&& final(arena)@ == arena2
            &&& *final(b) == a.0 && *final(map) == a.1
            &&& final(rng)@ == u.1 && final(byte_util).rng@ == u.2
            &&& r == (u.3, a.2)
        }),
{
    tick(b);
    let despawn = boss::update_ai_base(b, map, arena, id, hero, rng, byte_util);
    slide(arena, id, &b.enemy);
    let strike = boss::animate_base(b, map, arena, id, hero);
    (despawn, strike)
}

/// Advances the hand one frame (see [`hand_ticked`]).
fn tick(b: &mut BossData)
    requires
        old(b).subclass is GebHandLeft,
    ensures
        *final(b) == hand_ticked(*old(b)),
{
    b.enemy.battler.anim_frame = (b.enemy.battler.anim_frame as i32 + 1) as i8;
    let t = match &b.subclass {
        BossSubclass::GebHandLeft(d) => (d.ticks_since_hit as i32 + 1) as i8,
        _ => 0,
    };
    b.subclass = BossSubclass::GebHandLeft(GebHandLeftData { ticks_since_hit: t });
    if t > 100 {
        b.enemy.stats.attack_delay = 0;
    }
}

/// Slides the hand's node (see [`hand_slid`]).
fn slide(arena: &mut EntityArena, id: EntityId, e: &EnemyData)
    requires
        id < old(arena)@.len(),
    ensures
        final(arena)@ == old(arena)@.update(id as int, hand_slid(old(arena)@[id as int], *e)),
{
    if e.battler.state == STATE_STEPPING {
        let mut n = *arena.node(id);
        if e.battler.facing == 1 {
            n.pixel_y = (n.pixel_y as i32 - 8) as i16;
        } else if e.battler.facing == 2 {
            n.pixel_y = (n.pixel_y as i32 + 8) as i16;
        }
        sync_tile(&mut n);
        arena.set_node(id, n);
    } else {
        assert(old(arena)@.update(id as int, old(arena)@[id as int]) =~= old(arena)@);
    }
}

/// `paint(graphics, origin_x, origin_y)` of the hand: its tall sprite drawn
/// facing up (whatever its step direction), 80 pixels higher.
pub fn paint(
    e: &mut EnemyData,
    n: &EntityNode,
    width: i32,
    world_height: i32,
    boss_frames: &Vec<Option<Vec<i8>>>,
    loaded: &Vec<Option<Vec<bool>>>,
    origin_x: i32,
    origin_y: i32,
) -> (ops: Vec<GlyphOp>)
    requires
        boss::boss_paint_fits(boss::facing_up(*old(e)), boss_frames@, loaded@),
    ensures
        *final(e) == *old(e),
        ops@ == boss::boss_paint_ops(
            boss::facing_up(*old(e)),
            *n,
            width,
            world_height,
            boss_frames@,
            loaded@,
            origin_x,
            crate::bitmap_font::wsub(origin_y, 80),
        ),
{
    let saved = e.battler.move_dir;
    e.battler.move_dir = 1;
    let ops = boss::paint_base(e, n, width, world_height, boss_frames, loaded, origin_x, origin_y.wrapping_sub(80));
    e.battler.move_dir = saved;
    ops
}

} // verus!
