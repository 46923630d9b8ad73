//! Bosses: multi-tile enemies that track the hero's distance, take guardian
//! hits with their own rule and run a subclass death hook instead of dropping
//! loot. The concrete encounters are told apart by a subclass tag.

use vstd::prelude::*;
use crate::battler::{footprint_fits, occupies, set_occupancy, BattlerData, STATE_ATTACKING, STATE_DEAD, STATE_DYING, STATE_IDLE, STATE_KNOCKBACK, STATE_STEPPING};
use crate::byte_util::{ByteUtilState, JavaRandom};
use crate::directions::ELEMENT_DAMAGE_MULTIPLIER;
use crate::enemy::{
    self, animated, attack_reads_fit, chase_reads_fit, chase_rng, chase_settles, charged, damage_number,
    guardian_damage, hp_after, idled, same_but_hit, strike_reads_fit, summon_ticked, tried_attack, with_state,
    paint_pos, tile_gap, EnemyData, Strike,
};
use crate::entity::{EntityArena, EntityId, EntityNode};
use crate::game_map::GameMapState;
use crate::geb_hand_left::{self, hand_resolved, hand_tried, GebHandLeftData};
use crate::bitmap_font::{wadd, wsub, GlyphOp};
use crate::base_canvas::wmul;
use crate::game_screen::{draw_frame_group, group_drawable, group_frame_blits, push_sprites, sprite_ops};
use crate::floater;
use crate::jvm::{ishl, java_div, spec_ishl};
use crate::enemy_type::EnemyTypeState;
use crate::enemy::{enemy_layer, enemy_node, fresh_enemy, template_loaded, template_of};

verus! {

/// Which boss a boss node is, with the subclass's own fields where this crate
/// holds them (the Rocky Firebird's pattern state, the Geb head's hand handles
/// and the right hand's swing state are not held here).
pub enum BossSubclass {
    /// The abstract boss itself.
    Base,
    /// The Rocky Firebird.
    RockyBoss,
    /// Geb's passive weak point.
    GebCore,
    /// Geb's main body.
    GebHead,
    /// Geb's left hand.
    GebHandLeft(GebHandLeftData),
    /// Geb's right hand.
    GebHandRight,
}

/// The subclass without its fields.
#[derive(Clone, Copy, Debug, PartialEq, Eq, Structural)]
pub enum BossKind {
    Base,
    RockyBoss,
    GebCore,
    GebHead,
    GebHandLeft,
    GebHandRight,
}

impl BossSubclass {
    /// The kind of this subclass.
    pub open spec fn spec_kind(&self) -> BossKind {
        match self {
            BossSubclass::Base => BossKind::Base,
            BossSubclass::RockyBoss => BossKind::RockyBoss,
            BossSubclass::GebCore => BossKind::GebCore,
            BossSubclass::GebHead => BossKind::GebHead,
            BossSubclass::GebHandLeft(_) => BossKind::GebHandLeft,
            BossSubclass::GebHandRight => BossKind::GebHandRight,
        }
    }

    /// `kind()`: the subclass's kind.
    pub fn kind(&self) -> (k: BossKind)
        ensures
            k == self.spec_kind(),
    {
        match self {
            BossSubclass::Base => BossKind::Base,
            BossSubclass::RockyBoss => BossKind::RockyBoss,
            BossSubclass::GebCore => BossKind::GebCore,
            BossSubclass::GebHead => BossKind::GebHead,
            BossSubclass::GebHandLeft(_) => BossKind::GebHandLeft,
            BossSubclass::GebHandRight => BossKind::GebHandRight,
        }
    }
}

/// A boss: the enemy base, the hero's tile distance cached each tick, and the
/// subclass.
pub struct BossData {
    /// The enemy base.
    pub enemy: EnemyData,
    /// Absolute tile-column distance to the hero.
    pub hero_dist_x: i8,
    /// Absolute tile-row distance to the hero.
    pub hero_dist_y: i8,
    /// The concrete boss.
    pub subclass: BossSubclass,
}

/// `take_guardian_hit(raw_damage, guardian_element)` of a boss: unless it is dying
/// or dead, it loses the element-scaled damage (floated as a number plus a hit
/// spark); unlike a plain enemy it stays frozen, unengaged and unrecoiled. A
/// lethal hit enters state 5 at frame 0 and returns `true`: the subclass's
/// death hook is then due.
pub fn take_guardian_hit(b: &mut BossData, raw_damage: i32, guardian_element: i8) -> (lethal: bool)
    requires
        0 <= guardian_element < 4,
        0 <= old(b).enemy.stats.element < 4,
    ensures
        old(b).enemy.battler.state == STATE_DEAD || old(b).enemy.battler.state == STATE_DYING ==> {
            &&& !lethal
            &&& final(b).enemy == old(b).enemy
        },
        !(old(b).enemy.battler.state == STATE_DEAD || old(b).enemy.battler.state == STATE_DYING) ==> {
            let e0 = old(b).enemy;
            let e = final(b).enemy;
            let dmg = guardian_damage(raw_damage, guardian_element as int, e0.stats.element as int);
            let n = e0.battler.floaters@.len();
            &&& e.hp == hp_after(e0.hp, dmg)
            &&& lethal == (e.hp <= 0)
            &&& e.battler.floaters@.len() == n + 2
            &&& e.battler.floaters@.take(n as int) == e0.battler.floaters@
            &&& damage_number(e.battler.floaters@[n as int], dmg as i16)
            &&& e.battler.floaters@[n + 1int].data.kind == 1
            &&& e.battler.floaters@[n + 1int].lifetime == 3
            &&& lethal ==> e.battler.state == STATE_DYING && e.battler.anim_frame == 0
            &&& !lethal ==> e.battler.state == e0.battler.state && e.battler.anim_frame
                == e0.battler.anim_frame
            &&& e.battler.statuses == e0.battler.statuses
            &&& e.status_flags == e0.status_flags
            &&& e.aggroed == e0.aggroed && e.hidden == e0.hidden
            &&& e.recoil_timer == e0.recoil_timer && e.recoil_dir == e0.recoil_dir
            &&& e.death_timer == e0.death_timer
            &&& same_but_hit(e, e0)
        },
        final(b).hero_dist_x == old(b).hero_dist_x,
        final(b).hero_dist_y == old(b).hero_dist_y,
        final(b).subclass == old(b).subclass,
{
    if b.enemy.battler.state == STATE_DEAD || b.enemy.battler.state == STATE_DYING {
        return false;
    }
    let mut raw = raw_damage;
    if raw < 0 {
        raw = 0;
    }
    let element = b.enemy.stats.element;
    let mult = ELEMENT_DAMAGE_MULTIPLIER[guardian_element as usize][element as usize] as i32;
    let final_damage = match java_div(raw.wrapping_mul(mult), 10) {
        Some(q) => q,
        None => 0,
    };
    let ghost n = b.enemy.battler.floaters@.len();
    b.enemy.hp = (b.enemy.hp as i32).wrapping_sub(final_damage) as i16;
    b.enemy.battler.floaters.push(floater::new(7, 4, final_damage as i16));
    b.enemy.battler.floaters.push(floater::new_default(1));
    assert(b.enemy.battler.floaters@.take(n as int) =~= old(b).enemy.battler.floaters@);
    if b.enemy.hp <= 0 {
        b.enemy.battler.state = STATE_DYING;
        b.enemy.battler.anim_frame = 0;
        return true;
    }
    false
}

/// The bosses whose behaviour this crate holds: the abstract boss, Geb's core
/// and Geb's left hand.
pub open spec fn kind_held(s: BossSubclass) -> bool {
    s is Base || s is GebCore || s is GebHandLeft
}

/// `try_attack()` of a boss of `kind` (see [`try_attack`]) from enemy state `e`.
pub open spec fn boss_tried(
    kind: BossKind,
    e: EnemyData,
    map: GameMapState,
    arena: Seq<EntityNode>,
    id: EntityId,
    hero: EntityId,
    rng: int,
    seed: int,
) -> (EnemyData, int, int) {
    if kind == BossKind::GebCore {
        (e, rng, seed)
    } else if kind == BossKind::GebHandLeft {
        (hand_tried(e, arena, id, hero), rng, seed)
    } else {
        tried_attack(e, map, arena, id, hero, rng, seed)
    }
}

/// The tiles a boss of `kind` looks at when it tries to attack lie on the grid.
pub open spec fn boss_attack_reads_fit(kind: BossKind, e: EnemyData, map: GameMapState, n: EntityNode, hero: EntityId) -> bool {
    kind == BossKind::Base ==> attack_reads_fit(e, map, n, hero)
}

/// `try_attack()` of a boss: the abstract boss attacks like an enemy, Geb's core
/// never attacks, and the left hand slams or slides (see
/// [`geb_hand_left::try_attack`]).
pub fn try_attack(
    b: &mut BossData,
    map: &GameMapState,
    arena: &EntityArena,
    id: EntityId,
    hero: EntityId,
    rng: &mut JavaRandom,
    byte_util: &mut ByteUtilState,
)
    requires
        kind_held(old(b).subclass),
        id < arena@.len(),
        hero < arena@.len(),
        boss_attack_reads_fit(old(b).subclass.spec_kind(), old(b).enemy, *map, arena@[id as int], hero),
    ensures
        ({
            let t = boss_tried(old(b).subclass.spec_kind(), old(b).enemy, *map, arena@, id, hero, old(rng)@, old(byte_util).rng@);
            &&& *final(b) == (BossData { enemy: t.0, ..*old(b) })
            &&& final(rng)@ == t.1 && final(byte_util).rng@ == t.2
        }),
{
    match b.subclass {
        BossSubclass::GebCore => {},
        BossSubclass::GebHandLeft(_) => {
            geb_hand_left::try_attack(&mut b.enemy, arena, id, hero);
        },
        _ => {
            enemy::try_attack(&mut b.enemy, map, arena, id, hero, rng, byte_util);
        },
    }
}

/// `chase()` of a boss of `kind` from enemy state `e`: the enemy's chase with
/// the boss's own attack try.
pub open spec fn boss_chased(
    kind: BossKind,
    e: EnemyData,
    map: GameMapState,
    arena: Seq<EntityNode>,
    id: EntityId,
    hero: EntityId,
    rng: int,
    seed: int,
) -> (EnemyData, int, int) {
    let e1 = if chase_settles(e, rng) { idled(e, seed, false).0 } else { charged(e) };
    boss_tried(kind, e1, map, arena, id, hero, chase_rng(e, rng), seed)
}

/// `chase()` of a boss: goes idle and attacks once the banked charge reaches
/// twice the attack delay or on a non-positive draw, else banks charge and
/// tries to attack (with the boss's own attack, see [`try_attack`]).
pub fn chase_base(
    b: &mut BossData,
    map: &GameMapState,
    arena: &EntityArena,
    id: EntityId,
    hero: EntityId,
    rng: &mut JavaRandom,
    byte_util: &mut ByteUtilState,
)
    requires
        kind_held(old(b).subclass),
        id < arena@.len(),
        hero < arena@.len(),
        old(b).subclass.spec_kind() == BossKind::Base ==> chase_reads_fit(old(b).enemy, *map, arena@[id as int], hero, old(rng)@),
    ensures
        ({
            let t = boss_chased(old(b).subclass.spec_kind(), old(b).enemy, *map, arena@, id, hero, old(rng)@, old(byte_util).rng@);
            &&& *final(b) == (BossData { enemy: t.0, ..*old(b) })
            &&& final(rng)@ == t.1 && final(byte_util).rng@ == t.2
        }),
{
    let delay = b.enemy.stats.attack_delay as i32;
    if b.enemy.attack_charge as i32 >= delay * 2 || rng.next_int() <= 0 {
        enemy::enter_idle(&mut b.enemy, byte_util, false);
    } else {
        b.enemy.attack_charge = (b.enemy.attack_charge as i32 + delay) as i8;
        b.enemy.attack_cooldown = 0;
    }
    try_attack(b, map, arena, id, hero, rng, byte_util);
}

/// The state dispatch of a boss's `update_ai()` (see [`crate::enemy::dispatched`])
/// with the boss's own attack try and chase.
pub open spec fn boss_dispatched(
    kind: BossKind,
    e: EnemyData,
    map: GameMapState,
    arena: Seq<EntityNode>,
    id: EntityId,
    hero: EntityId,
    rng: int,
    seed: int,
) -> (EnemyData, int, int) {
    let n = arena[id as int];
    let state = e.battler.state;
    if state == STATE_IDLE {
        boss_tried(kind, e, map, arena, id, hero, rng, seed)
    } else if state == STATE_STEPPING {
        if !(n.off_grid_x || n.off_grid_y) {
            boss_chased(kind, e, map, arena, id, hero, rng, seed)
        } else {
            (e, rng, seed)
        }
    } else if state == STATE_ATTACKING {
        if e.battler.anim_frame >= e.stats.cast_frames {
            boss_tried(kind, idled(e, seed, false).0, map, arena, id, hero, rng, seed)
        } else {
            (e, rng, seed)
        }
    } else if state == STATE_KNOCKBACK {
        let e1 = if e.battler.knockback_timer < 1 { with_state(e, STATE_IDLE) } else { e };
        (
            EnemyData {
                battler: BattlerData { knockback_timer: (e1.battler.knockback_timer - 1) as i8, ..e1.battler },
                ..e1
            },
            rng,
            seed,
        )
    } else {
        (e, rng, seed)
    }
}

/// `update_ai()` of a boss of `kind` from enemy state `e`: the enemy state,
/// both generator states, and whether the boss died this step (and is to be
/// removed from the map).
pub open spec fn boss_updated_ai(
    kind: BossKind,
    e: EnemyData,
    map: GameMapState,
    arena: Seq<EntityNode>,
    id: EntityId,
    hero: EntityId,
    rng: int,
    seed: int,
) -> (EnemyData, int, int, bool) {
    if e.battler.state == STATE_DYING && e.death_timer >= 1 {
        (EnemyData { death_timer: (e.death_timer - 1) as i8, ..e }, rng, seed, false)
    } else {
        let dies = e.battler.state == STATE_DYING;
        if e.status_flags[0] || e.status_flags[2] {
            (idled(e, seed, false).0, rng, seed, dies)
        } else {
            let r = boss_dispatched(kind, e, map, arena, id, hero, rng, seed);
            (r.0, r.1, r.2, dies)
        }
    }
}

/// What a boss's `update_ai()` from `e` reads lies on the grid (only the
/// abstract boss looks at tiles).
pub open spec fn boss_ai_reads_fit(kind: BossKind, e: EnemyData, map: GameMapState, n: EntityNode, hero: EntityId, rng: int) -> bool {
    let state = e.battler.state;
    kind == BossKind::Base && state != STATE_DYING && !(e.status_flags[0] || e.status_flags[2]) ==> {
        &&& state == STATE_IDLE ==> attack_reads_fit(e, map, n, hero)
        &&& state == STATE_STEPPING && !(n.off_grid_x || n.off_grid_y) ==> chase_reads_fit(e, map, n, hero, rng)
        &&& state == STATE_ATTACKING && e.battler.anim_frame >= e.stats.cast_frames ==> attack_reads_fit(
            idled(e, 0, false).0,
            map,
            n,
            hero,
        )
    }
}

/// `update_ai()` of a boss: the enemy's state machine, except that a boss whose
/// death timer has run out dies by leaving the map (returns `true`) with no
/// loot, and that attack tries and chases are the boss's own.
pub fn update_ai_base(
    b: &mut BossData,
    map: &GameMapState,
    arena: &EntityArena,
    id: EntityId,
    hero: EntityId,
    rng: &mut JavaRandom,
    byte_util: &mut ByteUtilState,
) -> (despawn: bool)
    requires
        kind_held(old(b).subclass),
        id < arena@.len(),
        hero < arena@.len(),
        boss_ai_reads_fit(old(b).subclass.spec_kind(), old(b).enemy, *map, arena@[id as int], hero, old(rng)@),
    ensures
        ({
            let u = boss_updated_ai(
                old(b).subclass.spec_kind(),
                old(b).enemy,
                *map,
                arena@,
                id,
                hero,
                old(rng)@,
                old(byte_util).rng@,
            );
            &&& *final(b) == (BossData { enemy: u.0, ..*old(b) })
            &&& final(rng)@ == u.1 && final(byte_util).rng@ == u.2
            &&& despawn == u.3
        }),
{
    let n = arena.node(id);
    let aligned = !(n.off_grid_x || n.off_grid_y);
    let mut despawn = false;
    if b.enemy.battler.state == STATE_DYING {
        if b.enemy.death_timer >= 1 {
            b.enemy.death_timer = (b.enemy.death_timer as i32 - 1) as i8;
            return false;
        }
        despawn = true;
    }
    if b.enemy.status_flags[0] || b.enemy.status_flags[2] {
        enemy::enter_idle(&mut b.enemy, byte_util, false);
        return despawn;
    }
    let state = b.enemy.battler.state;
    if state == STATE_IDLE {
        try_attack(b, map, arena, id, hero, rng, byte_util);
    } else if state == STATE_STEPPING {
        if aligned {
            chase_base(b, map, arena, id, hero, rng, byte_util);
        }
    } else if state == STATE_ATTACKING {
        if b.enemy.battler.anim_frame >= b.enemy.stats.cast_frames {
            enemy::enter_idle(&mut b.enemy, byte_util, false);
            try_attack(b, map, arena, id, hero, rng, byte_util);
        }
    } else if state == STATE_KNOCKBACK {
        if b.enemy.battler.knockback_timer < 1 {
            enemy::set_state(&mut b.enemy, STATE_IDLE);
        }
        b.enemy.battler.knockback_timer = (b.enemy.battler.knockback_timer as i32 - 1) as i8;
    }
    despawn
}

/// `animate()` of boss `b` on `map`: the enemy's animation step, except that
/// the left hand resolves its own slam (see [`hand_resolved`]); the boss, the
/// map and what landed.
pub open spec fn boss_animated(
    b: BossData,
    map: GameMapState,
    arena: Seq<EntityNode>,
    id: EntityId,
    hero: EntityId,
) -> (BossData, GameMapState, Strike) {
    let e1 = summon_ticked(b.enemy);
    if b.subclass is GebHandLeft && e1.battler.state == STATE_ATTACKING {
        hand_resolved(BossData { enemy: e1, ..b }, map, arena, id, hero)
    } else {
        let a = animated(b.enemy, map, arena[id as int], id, hero);
        (BossData { enemy: a.0, ..b }, map, a.1)
    }
}

/// What a boss's `animate()` reads lies in bounds.
pub open spec fn boss_animate_reads_fit(b: BossData, map: GameMapState, n: EntityNode, hero: EntityId) -> bool {
    let e1 = summon_ticked(b.enemy);
    !(b.subclass is GebHandLeft) && e1.battler.state == STATE_ATTACKING ==> strike_reads_fit(e1, map, n, hero)
}

/// `animate()` of a boss: the enemy's animation step (summon timer, frame
/// wrap, cooldowns, attack resolution), with the left hand's own slam.
pub fn animate_base(b: &mut BossData, map: &mut GameMapState, arena: &EntityArena, id: EntityId, hero: EntityId) -> (r: Strike)
    requires
        kind_held(old(b).subclass),
        id < arena@.len(),
        hero < arena@.len(),
        boss_animate_reads_fit(*old(b), *old(map), arena@[id as int], hero),
    ensures
        (*final(b), *final(map), r) == boss_animated(*old(b), *old(map), arena@, id, hero),
{
    let hand = match b.subclass {
        BossSubclass::GebHandLeft(_) => true,
        _ => false,
    };
    if hand && b.enemy.battler.state == STATE_ATTACKING {
        enemy::tick_summon(&mut b.enemy);
        geb_hand_left::resolve_attack(b, map, arena, id, hero)
    } else {
        enemy::animate(&mut b.enemy, map, arena, id, hero)
    }
}

/// `b` one frame on, with the hero's tile distances cached.
pub open spec fn boss_ticked(b: BossData, arena: Seq<EntityNode>, id: EntityId, hero: EntityId) -> BossData {
    BossData {
        enemy: enemy::with_frame(b.enemy, (b.enemy.battler.anim_frame + 1) as i8),
        hero_dist_x: tile_gap(arena[id as int].tile_x, arena[hero as int].tile_x),
        hero_dist_y: tile_gap(arena[id as int].tile_y, arena[hero as int].tile_y),
        ..b
    }
}

/// `update()` of the abstract boss and Geb's core: one frame on, the hero's
/// tile distances cached, then the AI and the animation. Returns whether the
/// boss died (and is to leave the map) and what landed.
pub fn update_base(
    b: &mut BossData,
    map: &mut GameMapState,
    arena: &EntityArena,
    id: EntityId,
    hero: EntityId,
    rng: &mut JavaRandom,
    byte_util: &mut ByteUtilState,
) -> (r: (bool, Strike))
    requires
        old(b).subclass is Base || old(b).subclass is GebCore,
        id < arena@.len(),
        hero < arena@.len(),
        ({
            let b1 = boss_ticked(*old(b), arena@, id, hero);
            let u = boss_updated_ai(b1.subclass.spec_kind(), b1.enemy, *old(map), arena@, id, hero, old(rng)@, old(byte_util).rng@);
            &&& boss_ai_reads_fit(b1.subclass.spec_kind(), b1.enemy, *old(map), arena@[id as int], hero, old(rng)@)
            &&& boss_animate_reads_fit(BossData { enemy: u.0, ..b1 }, *old(map), arena@[id as int], hero)
        }),
    ensures
        ({
            let b1 = boss_ticked(*old(b), arena@, id, hero);
            let u = boss_updated_ai(b1.subclass.spec_kind(), b1.enemy, *old(map), arena@, id, hero, old(rng)@, old(byte_util).rng@);
            let a = boss_animated(BossData { enemy: u.0, ..b1 }, *old(map), arena@, id, hero);
            &&& *final(b) == a.0 && *final(map) == a.1
            &&& final(rng)@ == u.1 && final(byte_util).rng@ == u.2
            &&& r == (u.3, a.2)
        }),
{
    b.enemy.battler.anim_frame = (b.enemy.battler.anim_frame as i32 + 1) as i8;
    b.hero_dist_x = enemy::tile_dist_x(arena, id, hero);
    b.hero_dist_y = enemy::tile_dist_y(arena, id, hero);
    let despawn = update_ai_base(b, map, arena, id, hero, rng, byte_util);
    let strike = animate_base(b, map, arena, id, hero);
    (despawn, strike)
}

/// The death timer a boss arms when a lethal hit lands: Geb's core lingers
/// 16 frames, the left hand leaves at once, and the abstract boss arms
/// nothing.
pub open spec fn death_timer_on_death(b: BossData) -> Option<i8> {
    match b.subclass {
        BossSubclass::GebCore => Some(16i8),
        BossSubclass::GebHandLeft(_) => Some(0i8),
        _ => None,
    }
}

/// `on_death()` of a boss: arms its death timer (see [`death_timer_on_death`]).
pub fn on_death(b: &mut BossData)
    requires
        kind_held(old(b).subclass),
    ensures
        death_timer_on_death(*old(b)) matches Some(t) ==> *final(b) == (BossData {
            enemy: EnemyData { death_timer: t, ..old(b).enemy },
            ..*old(b)
        }),
        death_timer_on_death(*old(b)) is None ==> *final(b) == *old(b),
{
    match b.subclass {
        BossSubclass::GebCore => {
            b.enemy.death_timer = 16;
        },
        BossSubclass::GebHandLeft(_) => {
            b.enemy.death_timer = 0;
        },
        _ => {},
    }
}

/// The frame group of a boss facing `move_dir` in `state`: sixteen per stat
/// row (walk at 4, attack at 12, dying at 8, standing at 0), one per step
/// direction.
pub open spec fn boss_frame_group(state: i8, stat_row: i8, move_dir: i8) -> i32 {
    let off: i32 = if state == STATE_STEPPING {
        4
    } else if state == STATE_ATTACKING {
        12
    } else if state == STATE_DYING {
        8
    } else {
        0
    };
    wadd(wadd(wmul(stat_row as i32, 16), off), wsub(move_dir as i32, 1))
}

/// The frame group drawn: the state's group, or the standing group when the
/// state's is not loaded.
pub open spec fn boss_drawn_group(e: EnemyData, frames: Seq<Option<Vec<i8>>>) -> i32 {
    let fg = boss_frame_group(e.battler.state, e.stat_row, e.battler.move_dir);
    if frames[fg as int] is None {
        boss_frame_group(STATE_IDLE, e.stat_row, e.battler.move_dir)
    } else {
        fg
    }
}

/// The script of frame group `fg` of the boss bank.
pub open spec fn boss_script(frames: Seq<Option<Vec<i8>>>, fg: i32) -> Option<Seq<i8>> {
    match frames[fg as int] {
        Some(v) => Some(v@),
        None => None,
    }
}

/// The boss's drawing steps (see [`paint_base`]).
pub open spec fn boss_paint_ops(
    e: EnemyData,
    n: EntityNode,
    width: i32,
    world_height: i32,
    frames: Seq<Option<Vec<i8>>>,
    loaded: Seq<Option<Vec<bool>>>,
    ox: i32,
    oy: i32,
) -> Seq<GlyphOp> {
    let p = paint_pos(n, ox, oy);
    let body = group_frame_blits(boss_script(frames, boss_drawn_group(e, frames)), e.battler.anim_frame, loaded, p.0, p.1);
    seq![GlyphOp::SetClip(0, 0, width, world_height)] + sprite_ops(body) + seq![
        GlyphOp::StatusIcons(p.0, wsub(p.1, wmul(e.stats.size as i32, 3))),
        GlyphOp::Floaters(p.0, p.1),
    ]
}

/// What the boss's drawing reads lies in bounds.
pub open spec fn boss_paint_fits(e: EnemyData, frames: Seq<Option<Vec<i8>>>, loaded: Seq<Option<Vec<bool>>>) -> bool {
    let fg = boss_frame_group(e.battler.state, e.stat_row, e.battler.move_dir);
    let base = boss_frame_group(STATE_IDLE, e.stat_row, e.battler.move_dir);
    let sc = boss_script(frames, boss_drawn_group(e, frames));
    &&& 0 <= fg < frames.len()
    &&& frames[fg as int] is None ==> 0 <= base < frames.len()
    &&& sc matches Some(v) ==> v.len() <= i32::MAX
    &&& group_drawable(sc, e.battler.anim_frame, loaded)
}

/// `paint(graphics, origin_x, origin_y)` of a boss at node `n` on the `width` x
/// `world_height` view, with the boss frame bank `boss_frames` and the sprite
/// banks as loaded: unlike an enemy it is never culled and casts no shadow;
/// its frame group (the standing one when its state's is not loaded), its
/// status icons and its floaters.
pub fn paint_base(
    e: &EnemyData,
    n: &EntityNode,
    width: i32,
    world_height: i32,
    boss_frames: &Vec<Option<Vec<i8>>>,
    loaded: &Vec<Option<Vec<bool>>>,
    origin_x: i32,
    origin_y: i32,
) -> (ops: Vec<GlyphOp>)
    requires
        boss_paint_fits(*e, boss_frames@, loaded@),
    ensures
        ops@ == boss_paint_ops(*e, *n, width, world_height, boss_frames@, loaded@, origin_x, origin_y),
{
    let sx = origin_x.wrapping_add(n.pixel_x as i32).wrapping_add(n.half_w as i32).wrapping_add(
        (n.layer as i32).wrapping_sub(1).wrapping_mul(8),
    );
    let sy = origin_y.wrapping_add(n.pixel_y as i32).wrapping_add(n.half_h as i32);
    let state = e.battler.state;
    let off: i32 = if state == STATE_STEPPING {
        4
    } else if state == STATE_ATTACKING {
        12
    } else if state == STATE_DYING {
        8
    } else {
        0
    };
    let row = (e.stat_row as i32).wrapping_mul(16);
    let dir = (e.battler.move_dir as i32).wrapping_sub(1);
    let mut fg = row.wrapping_add(off).wrapping_add(dir);
    if boss_frames[fg as usize].is_none() {
        fg = row.wrapping_add(0).wrapping_add(dir);
    }
    let script: Option<&[i8]> = match &boss_frames[fg as usize] {
        Some(v) => Some(v.as_slice()),
        None => None,
    };
    let mut ops: Vec<GlyphOp> = Vec::new();
    ops.push(GlyphOp::SetClip(0, 0, width, world_height));
    let blits = draw_frame_group(loaded, script, e.battler.anim_frame, sx, sy);
    push_sprites(&mut ops, &blits);
    ops.push(GlyphOp::StatusIcons(sx, sy.wrapping_sub((e.stats.size as i32).wrapping_mul(3))));
    ops.push(GlyphOp::Floaters(sx, sy));
    proof {
        assert(ops@ =~= boss_paint_ops(*e, *n, width, world_height, boss_frames@, loaded@, origin_x, origin_y));
    }
    ops
}

/// `e` drawn facing up: the left hand's sprite always faces its slam.
pub open spec fn facing_up(e: EnemyData) -> EnemyData {
    EnemyData { battler: BattlerData { move_dir: 1, ..e.battler }, ..e }
}

/// `paint(graphics, origin_x, origin_y)` of a boss: the left hand draws its tall
/// sprite facing up, 80 pixels higher; Geb's right hand is drawn by its own
/// code (not held here); every other boss draws as in [`paint_base`].
pub fn paint(
    b: &mut BossData,
    n: &EntityNode,
    width: i32,
    world_height: i32,
    boss_frames: &Vec<Option<Vec<i8>>>,
    loaded: &Vec<Option<Vec<bool>>>,
    origin_x: i32,
    origin_y: i32,
) -> (ops: Vec<GlyphOp>)
    requires
        !(old(b).subclass is GebHandRight),
        old(b).subclass is GebHandLeft ==> boss_paint_fits(facing_up(old(b).enemy), boss_frames@, loaded@),
        !(old(b).subclass is GebHandLeft) ==> boss_paint_fits(old(b).enemy, boss_frames@, loaded@),
    ensures
        *final(b) == *old(b),
        old(b).subclass is GebHandLeft ==> ops@ == boss_paint_ops(
            facing_up(old(b).enemy),
            *n,
            width,
            world_height,
            boss_frames@,
            loaded@,
            origin_x,
            wsub(origin_y, 80),
        ),
        !(old(b).subclass is GebHandLeft) ==> ops@ == boss_paint_ops(
            old(b).enemy,
            *n,
            width,
            world_height,
            boss_frames@,
            loaded@,
            origin_x,
            origin_y,
        ),
{
    let hand = match b.subclass {
        BossSubclass::GebHandLeft(_) => true,
        _ => false,
    };
    if hand {
        geb_hand_left::paint(&mut b.enemy, n, width, world_height, boss_frames, loaded, origin_x, origin_y)
    } else {
        paint_base(&b.enemy, n, width, world_height, boss_frames, loaded, origin_x, origin_y)
    }
}


/// The occupancy grid `new` is `old` with the cells of the footprints of `n1`
/// and of `n2` set to `id`: same shape, every other cell unchanged.
pub open spec fn stamped_both(
    old: Seq<Vec<Option<EntityId>>>,
    new: Seq<Vec<Option<EntityId>>>,
    n1: EntityNode,
    n2: EntityNode,
    id: EntityId,
) -> bool {
    &&& new.len() == old.len()
    &&& forall|r: int| 0 <= r < new.len() ==> (#[trigger] new[r])@.len() == old[r]@.len()
    &&& forall|r: int, c: int|
        0 <= r < new.len() && 0 <= c < new[r]@.len() ==> #[trigger] new[r]@[c] == if occupies(n1, r, c)
            || occupies(n2, r, c) {
            Some(id)
        } else {
            old[r]@[c]
        }
}

/// `new_boss(tile_x, tile_y, kind, stat_row, layer)`: a boss at the top-left of
/// tile `(tile_x, tile_y)` (pixel position `tile << 4`), built as a fresh enemy
/// of `kind` on the template of row `stat_row` (see [`enemy::fresh_enemy`]),
/// with no hero distance yet and no subclass. Its node is appended to `arena`;
/// the footprint of the enemy's own layer is stamped into the occupancy, then
/// the node is put on `layer` and that footprint is stamped too. Returns the
/// node's id and the boss record.
pub fn new_boss(
    arena: &mut EntityArena,
    map: &mut GameMapState,
    types: &EnemyTypeState,
    tile_x: i8,
    tile_y: i8,
    kind: i8,
    stat_row: i8,
    layer: i8,
) -> (r: (EntityId, BossData))
    requires
        template_loaded(*types, stat_row),
        old(map).occupancy is Some,
        footprint_fits(
            old(map).occupancy->0@,
            enemy_node(boss_pixel(tile_x), boss_pixel(tile_y), enemy_layer(template_of(*types, stat_row))),
        ),
        footprint_fits(old(map).occupancy->0@, enemy_node(boss_pixel(tile_x), boss_pixel(tile_y), layer)),
    ensures
        r.0 == old(arena)@.len(),
        final(arena)@ == old(arena)@.push(enemy_node(boss_pixel(tile_x), boss_pixel(tile_y), layer)),
        fresh_enemy(
            r.1.enemy,
            template_of(*types, stat_row),
            kind,
            stat_row,
            final(arena)@[r.0 as int].tile_x,
            final(arena)@[r.0 as int].tile_y,
        ),
        r.1.hero_dist_x == 0 && r.1.hero_dist_y == 0,
        r.1.subclass is Base,
        final(map).occupancy is Some,
        stamped_both(
            old(map).occupancy->0@,
            final(map).occupancy->0@,
            enemy_node(boss_pixel(tile_x), boss_pixel(tile_y), enemy_layer(template_of(*types, stat_row))),
            final(arena)@[r.0 as int],
            r.0,
        ),
        *final(map) == (GameMapState { occupancy: final(map).occupancy, ..*old(map) }),
{
    let pixel_x = ishl(tile_x as i32, 4) as i16;
    let pixel_y = ishl(tile_y as i32, 4) as i16;
    let table = types.types.as_ref().unwrap();
    let t = table[stat_row as usize].as_ref().unwrap();
    let (e, node) = enemy::build_enemy(t, pixel_x, pixel_y, kind, stat_row);
    let id = arena.alloc_node(node);
    let ghost occ0 = map.occupancy->0@;
    set_occupancy(map, arena, id);
    let ghost occ1 = map.occupancy->0@;
    let mut placed = node;
    placed.layer = layer;
    arena.set_node(id, placed);
    assert(placed == enemy_node(pixel_x, pixel_y, layer));
    proof {
        lemma_fits_same_shape(occ0, occ1, placed);
    }
    set_occupancy(map, arena, id);
    assert(arena@ =~= old(arena)@.push(placed));
    (id, BossData { enemy: e, hero_dist_x: 0, hero_dist_y: 0, subclass: BossSubclass::Base })
}

/// A boss's pixel coordinate for tile coordinate `t`: `t << 4`, kept to a short.
pub open spec fn boss_pixel(t: i8) -> i16 {
    spec_ishl(t as i32, 4) as i16
}

proof fn lemma_fits_same_shape(a: Seq<Vec<Option<EntityId>>>, b: Seq<Vec<Option<EntityId>>>, n: EntityNode)
    requires
        footprint_fits(a, n),
        b.len() == a.len(),
        forall|r: int| 0 <= r < b.len() ==> (#[trigger] b[r])@.len() == a[r]@.len(),
    ensures
        footprint_fits(b, n),
{
    if n.layer > 0 {
        assert(b[n.tile_y as int]@.len() == a[n.tile_y as int]@.len());
        if n.off_grid_y {
            assert(b[n.tile_y + 1]@.len() == a[n.tile_y + 1]@.len());
        }
    }
}


/// A boss in knockback that is neither frozen nor stunned counts its knockback
/// timer down by one on each AI tick: once the timer has run out (below 1) the
/// tick returns it to idle, and before that it stays in knockback. Nothing else
/// of it changes, neither generator is drawn from, and it stays on the map.
#[verifier::rlimit(40)]
pub proof fn lemma_boss_knockback_recovers(
    kind: BossKind,
    e: EnemyData,
    map: GameMapState,
    arena: Seq<EntityNode>,
    id: EntityId,
    hero: EntityId,
    rng: int,
    seed: int,
)
    requires
        e.battler.state == STATE_KNOCKBACK,
        !e.status_flags[0],
        !e.status_flags[2],
    ensures
        ({
            let u = boss_updated_ai(kind, e, map, arena, id, hero, rng, seed);
            &&& e.battler.knockback_timer < 1 ==> u.0.battler.state == STATE_IDLE
            &&& e.battler.knockback_timer >= 1 ==> u.0.battler.state == STATE_KNOCKBACK
            &&& e.battler.knockback_timer > i8::MIN ==> u.0.battler.knockback_timer == e.battler.knockback_timer - 1
            &&& u.0 == (EnemyData {
                battler: BattlerData {
                    state: u.0.battler.state,
                    knockback_timer: u.0.battler.knockback_timer,
                    ..e.battler
                },
                ..e
            })
            &&& u.1 == rng && u.2 == seed && !u.3
        }),
{
    lemma_updated_knockback(kind, e, map, arena, id, hero, rng, seed);
    lemma_knocked_down(e);
}

proof fn lemma_knocked_down(e: EnemyData)
    ensures
        e.battler.knockback_timer < 1 ==> knocked_down(e).battler.state == STATE_IDLE,
        e.battler.knockback_timer >= 1 ==> knocked_down(e).battler.state == e.battler.state,
        e.battler.knockback_timer > i8::MIN ==> knocked_down(e).battler.knockback_timer == e.battler.knockback_timer - 1,
        knocked_down(e) == (EnemyData {
            battler: BattlerData {
                state: knocked_down(e).battler.state,
                knockback_timer: knocked_down(e).battler.knockback_timer,
                ..e.battler
            },
            ..e
        }),
{
}

proof fn lemma_updated_knockback(
    kind: BossKind,
    e: EnemyData,
    map: GameMapState,
    arena: Seq<EntityNode>,
    id: EntityId,
    hero: EntityId,
    rng: int,
    seed: int,
)
    requires
        e.battler.state == STATE_KNOCKBACK,
        !e.status_flags[0],
        !e.status_flags[2],
    ensures
        boss_updated_ai(kind, e, map, arena, id, hero, rng, seed) == (knocked_down(e), rng, seed, false),
{
    lemma_dispatch_knockback(kind, e, map, arena, id, hero, rng, seed);
}

/// One knockback count-down of `e`: idle first when the timer has run out.
pub open spec fn knocked_down(e: EnemyData) -> EnemyData {
    let e1 = if e.battler.knockback_timer < 1 { with_state(e, STATE_IDLE) } else { e };
    EnemyData { battler: BattlerData { knockback_timer: (e1.battler.knockback_timer - 1) as i8, ..e1.battler }, ..e1 }
}

proof fn lemma_dispatch_knockback(
    kind: BossKind,
    e: EnemyData,
    map: GameMapState,
    arena: Seq<EntityNode>,
    id: EntityId,
    hero: EntityId,
    rng: int,
    seed: int,
)
    requires
        e.battler.state == STATE_KNOCKBACK,
    ensures
        boss_dispatched(kind, e, map, arena, id, hero, rng, seed) == (knocked_down(e), rng, seed),
{
}

/// `n` AI ticks of a boss of `kind` from enemy state `e` on an unchanging map:
/// the enemy state after them.
pub open spec fn boss_ai_ticks(
    kind: BossKind,
    e: EnemyData,
    map: GameMapState,
    arena: Seq<EntityNode>,
    id: EntityId,
    hero: EntityId,
    rng: int,
    seed: int,
    n: nat,
) -> EnemyData
    decreases n,
{
    if n == 0 {
        e
    } else {
        let u = boss_updated_ai(kind, e, map, arena, id, hero, rng, seed);
        boss_ai_ticks(kind, u.0, map, arena, id, hero, u.1, u.2, (n - 1) as nat)
    }
}

/// Knockback always ends: a boss knocked back with a timer `t >= 0` that is
/// neither frozen nor stunned is idle again after `t + 1` AI ticks.
pub proof fn lemma_boss_knockback_ends(
    kind: BossKind,
    e: EnemyData,
    map: GameMapState,
    arena: Seq<EntityNode>,
    id: EntityId,
    hero: EntityId,
    rng: int,
    seed: int,
)
    requires
        e.battler.state == STATE_KNOCKBACK,
        !e.status_flags[0],
        !e.status_flags[2],
        e.battler.knockback_timer >= 0,
    ensures
        boss_ai_ticks(kind, e, map, arena, id, hero, rng, seed, (e.battler.knockback_timer + 1) as nat).battler.state
            == STATE_IDLE,
    decreases e.battler.knockback_timer,
{
    lemma_boss_knockback_recovers(kind, e, map, arena, id, hero, rng, seed);
    let u = boss_updated_ai(kind, e, map, arena, id, hero, rng, seed);
    if e.battler.knockback_timer == 0 {
        assert(boss_ai_ticks(kind, u.0, map, arena, id, hero, u.1, u.2, 0) == u.0);
    } else {
        assert(u.0.status_flags == e.status_flags);
        lemma_boss_knockback_ends(kind, u.0, map, arena, id, hero, u.1, u.2);
    }
}


/// A dying boss counts its death timer down, one per AI tick, and leaves the
/// map on the tick after the timer has run out; it leaves the map on no other
/// tick. Neither count-down nor departure draws from a generator.
pub proof fn lemma_boss_dies_when_timer_runs_out(
    kind: BossKind,
    e: EnemyData,
    map: GameMapState,
    arena: Seq<EntityNode>,
    id: EntityId,
    hero: EntityId,
    rng: int,
    seed: int,
)
    ensures
        ({
            let u = boss_updated_ai(kind, e, map, arena, id, hero, rng, seed);
            &&& u.3 <==> (e.battler.state == STATE_DYING && e.death_timer < 1)
            &&& e.battler.state == STATE_DYING && e.death_timer >= 1 ==> {
                &&& u.0 == (EnemyData { death_timer: (e.death_timer - 1) as i8, ..e })
                &&& u.0.death_timer == e.death_timer - 1
                &&& u.1 == rng && u.2 == seed
            }
        }),
{
    let u = boss_updated_ai(kind, e, map, arena, id, hero, rng, seed);
    if !(e.battler.state == STATE_DYING && e.death_timer >= 1) && !(e.status_flags[0] || e.status_flags[2]) {
        let r = boss_dispatched(kind, e, map, arena, id, hero, rng, seed);
        assert(u == (r.0, r.1, r.2, e.battler.state == STATE_DYING));
    }
}

/// A frozen or stunned boss that is not counting down its death goes idle on
/// its AI tick, with its animation restarted and its attack charge spent, and
/// draws from neither generator.
pub proof fn lemma_frozen_boss_idles(
    kind: BossKind,
    e: EnemyData,
    map: GameMapState,
    arena: Seq<EntityNode>,
    id: EntityId,
    hero: EntityId,
    rng: int,
    seed: int,
)
    requires
        e.status_flags[0] || e.status_flags[2],
        !(e.battler.state == STATE_DYING && e.death_timer >= 1),
    ensures
        ({
            let u = boss_updated_ai(kind, e, map, arena, id, hero, rng, seed);
            &&& u.0.battler.state == STATE_IDLE
            &&& u.0.battler.anim_frame == 0
            &&& u.0.attack_charge == 0
            &&& u.0.hp == e.hp
            &&& u.1 == rng && u.2 == seed
        }),
{
}

} // verus!
