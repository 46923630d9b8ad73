//! Enemies: a combatant with a stat template, hit points and a set of status
//! effects, and how it takes damage, heals and dies.

use vstd::prelude::*;
use crate::battler::{
    footprint_fits, occupies, set_occupancy, cell_in, dir_scan_fits, entity_in_dir, neighbor, neighbor_cell, scan_dir, BattlerData, StatusIconRef,
    STATE_ATTACKING, STATE_DEAD, STATE_DYING, STATE_IDLE, STATE_KNOCKBACK, STATE_STEPPING,
};
use crate::byte_util::{
    lcg_next, lcg_output, rand_range, rand_range_value, ByteUtilState, JavaRandom,
};
use crate::directions::{DIR_DX, DIR_DY, ELEMENT_DAMAGE_MULTIPLIER};
use crate::entity::{init_base, EntityArena, EntityId, EntityKind, EntityNode};
use crate::enemy_type::{EnemyTypeData, EnemyTypeState, ATTACK_HIT_FRAME};
use crate::game_map::{add_entity, links_and_marks_only_changed, GameMapState};
use crate::effect::{effect_node, new_effect_from_script, EffectData};
use crate::jvm::spec_ishl;
use crate::bitmap_font::{wadd, wsub, GlyphOp};
use crate::base_canvas::wmul;
use crate::game_screen::{draw_frame_group, group_drawable, group_frame_blits, push_sprites, sprite_ops};
use crate::floater::{self, Overlay};
use crate::jvm::{java_div, java_rem, spec_java_div, spec_java_rem};

verus! {

/// An enemy's own state beyond the combatant base.
pub struct EnemyData {
    /// The combatant base.
    pub battler: BattlerData,
    /// Enemy kind (selects the attack timing).
    pub kind: i8,
    /// The stat template's row.
    pub stat_row: i8,
    /// Spawn tile, for a respawn.
    pub home_tile_x: i32,
    pub home_tile_y: i32,
    /// The stat template.
    pub stats: EnemyTypeData,
    /// Current hit points.
    pub hp: i16,
    /// Attack charge built up while chasing.
    pub attack_charge: i8,
    /// Frames until the next attack.
    pub attack_cooldown: i8,
    /// Recovery frames after a hit.
    pub hurt_cooldown: i8,
    /// Death-animation countdown.
    pub death_timer: i8,
    /// Hit-recoil countdown and direction.
    pub recoil_timer: i8,
    pub recoil_dir: i8,
    /// Engaged with the hero.
    pub aggroed: bool,
    /// Spawned hidden.
    pub hidden: bool,
    /// Active status effects (0: freeze).
    pub status_flags: [bool; 5],
    /// The current target.
    pub target: Option<EntityId>,
    /// Summon cooldown.
    pub summon_timer: i8,
    /// Whether it was on screen last frame.
    pub on_screen: bool,
}

/// The enemy `e` with only `hp`, the death fields and the floaters possibly
/// changed: everything else equals `old`.
pub open spec fn same_but_hit(e: EnemyData, old: EnemyData) -> bool {
    &&& e.kind == old.kind && e.stat_row == old.stat_row
    &&& e.home_tile_x == old.home_tile_x && e.home_tile_y == old.home_tile_y
    &&& e.stats == old.stats
    &&& e.attack_charge == old.attack_charge && e.attack_cooldown == old.attack_cooldown
    &&& e.hurt_cooldown == old.hurt_cooldown
    &&& e.target == old.target && e.summon_timer == old.summon_timer && e.on_screen == old.on_screen
    &&& e.battler.facing == old.battler.facing && e.battler.move_dir == old.battler.move_dir
    &&& e.battler.knockback_timer == old.battler.knockback_timer
}

/// `e` in state `s`, all else kept.
pub open spec fn with_state(e: EnemyData, s: i8) -> EnemyData {
    EnemyData { battler: BattlerData { state: s, ..e.battler }, ..e }
}

/// `set_state(new_state)` of an enemy: enters `new_state`, keeping the
/// animation frame (unlike the combatant base).
pub fn set_state(e: &mut EnemyData, new_state: i8)
    ensures
        *final(e) == with_state(*old(e), new_state),
{
    e.battler.state = new_state;
}

/// A damage-number floater showing `amount`.
pub open spec fn damage_number(o: Overlay, amount: i16) -> bool {
    o.data.kind == 7 && o.lifetime == 4 && o.data.value == amount && o.frame == 0 && !o.finished
}

/// 16-bit hit points after losing `amount` (the JVM's wrapping `short`).
pub open spec fn hp_after(hp: i16, amount: i32) -> i16 {
    vstd::wrapping::i32_specs::wrapping_sub(hp as i32, amount) as i16
}

/// `damage(amount)`: loses `amount` hit points, floats the number, and starts
/// dying (state 5, death timer 3, animation restarting) when none are left.
pub fn damage(e: &mut EnemyData, amount: i32)
    ensures
        final(e).hp == hp_after(old(e).hp, amount),
        final(e).battler.floaters@.len() == old(e).battler.floaters@.len() + 1,
        final(e).battler.floaters@.drop_last() == old(e).battler.floaters@,
        damage_number(final(e).battler.floaters@.last(), amount as i16),
        final(e).hp <= 0 ==> {
            &&& final(e).battler.state == STATE_DYING
            &&& final(e).battler.anim_frame == -1
            &&& final(e).death_timer == 3
        },
        final(e).hp > 0 ==> {
            &&& final(e).battler.state == old(e).battler.state
            &&& final(e).battler.anim_frame == old(e).battler.anim_frame
            &&& final(e).death_timer == old(e).death_timer
        },
        final(e).battler.statuses == old(e).battler.statuses,
        same_but_hit(*final(e), *old(e)),
        final(e).recoil_timer == old(e).recoil_timer && final(e).recoil_dir == old(e).recoil_dir,
        final(e).aggroed == old(e).aggroed && final(e).hidden == old(e).hidden,
        final(e).status_flags == old(e).status_flags,
{
    e.hp = (e.hp as i32).wrapping_sub(amount) as i16;
    e.battler.floaters.push(floater::new(7, 4, amount as i16));
    if e.hp <= 0 {
        set_state(e, STATE_DYING);
        e.battler.anim_frame = -1;
        e.death_timer = 3;
    }
    assert(e.battler.floaters@.drop_last() =~= old(e).battler.floaters@);
}

/// `heal(amount)`: gains `amount` hit points (16-bit, wrapping), capped at the
/// template's maximum.
pub fn heal(e: &mut EnemyData, amount: i32)
    ensures
        final(e).hp == ({
            let h = vstd::wrapping::i32_specs::wrapping_add(old(e).hp as i32, amount) as i16;
            if h > old(e).stats.max_hp { old(e).stats.max_hp } else { h }
        }),
        final(e).hp <= final(e).stats.max_hp,
        final(e).battler == old(e).battler,
        same_but_hit(*final(e), *old(e)),
        final(e).death_timer == old(e).death_timer,
        final(e).recoil_timer == old(e).recoil_timer && final(e).recoil_dir == old(e).recoil_dir,
        final(e).aggroed == old(e).aggroed && final(e).hidden == old(e).hidden,
        final(e).status_flags == old(e).status_flags,
{
    e.hp = (e.hp as i32).wrapping_add(amount) as i16;
    if e.hp > e.stats.max_hp {
        e.hp = e.stats.max_hp;
    }
}

/// `slay(unused)`: reveals the enemy and, unless it is already dying or dead,
/// deals its full maximum hit points as damage.
pub fn slay(e: &mut EnemyData, unused: i8)
    ensures
        !final(e).hidden,
        old(e).battler.state == STATE_DEAD || old(e).battler.state == STATE_DYING ==> *final(e)
            == (EnemyData { hidden: false, ..*old(e) }),
        !(old(e).battler.state == STATE_DEAD || old(e).battler.state == STATE_DYING) ==> {
            &&& final(e).hp == hp_after(old(e).hp, old(e).stats.max_hp as i32)
            &&& final(e).battler.floaters@.drop_last() == old(e).battler.floaters@
            &&& damage_number(final(e).battler.floaters@.last(), old(e).stats.max_hp)
            &&& final(e).hp <= 0 ==> final(e).battler.state == STATE_DYING && final(e).death_timer == 3
        },
        same_but_hit(*final(e), *old(e)),
{
    e.hidden = false;
    if e.battler.state == STATE_DEAD || e.battler.state == STATE_DYING {
        return;
    }
    let max_hp = e.stats.max_hp as i32;
    damage(e, max_hp);
}

/// The index of the first status icon of kind 0 (freeze), or -1.
pub open spec fn first_freeze_icon(statuses: Seq<StatusIconRef>) -> int
    decreases statuses.len(),
{
    if statuses.len() == 0 {
        -1
    } else if statuses[0].kind == 0 {
        0
    } else {
        let r = first_freeze_icon(statuses.drop_first());
        if r < 0 { -1 } else { r + 1 }
    }
}

proof fn lemma_first_freeze_icon(statuses: Seq<StatusIconRef>, i: int)
    requires
        0 <= i <= statuses.len(),
        forall|j: int| 0 <= j < i ==> statuses[j].kind != 0,
    ensures
        i < statuses.len() && statuses[i].kind == 0 ==> first_freeze_icon(statuses) == i,
        i == statuses.len() ==> first_freeze_icon(statuses) == -1,
        -1 <= first_freeze_icon(statuses) < statuses.len(),
    decreases i,
{
    if i > 0 {
        let t = statuses.drop_first();
        assert forall|j: int| 0 <= j < i - 1 implies t[j].kind != 0 by {
            assert(t[j] == statuses[j + 1]);
        }
        lemma_first_freeze_icon(t, i - 1);
    } else {
        lemma_first_freeze_icon_range(statuses);
    }
}

proof fn lemma_first_freeze_icon_range(statuses: Seq<StatusIconRef>)
    ensures
        -1 <= first_freeze_icon(statuses) < statuses.len(),
    decreases statuses.len(),
{
    if statuses.len() > 0 {
        lemma_first_freeze_icon_range(statuses.drop_first());
    }
}

/// `clear_stun()`: lifts the freeze status and removes its first icon.
fn clear_stun(e: &mut EnemyData)
    ensures
        !old(e).status_flags[0] ==> *final(e) == *old(e),
        old(e).status_flags[0] ==> {
            let k = first_freeze_icon(old(e).battler.statuses@);
            &&& final(e).status_flags@ == old(e).status_flags@.update(0, false)
            &&& k < 0 ==> final(e).battler.statuses@ == old(e).battler.statuses@
            &&& k >= 0 ==> final(e).battler.statuses@ == old(e).battler.statuses@.remove(k)
            &&& final(e).battler.floaters == old(e).battler.floaters
            &&& final(e).battler.state == old(e).battler.state
            &&& final(e).battler.anim_frame == old(e).battler.anim_frame
            &&& final(e).hp == old(e).hp && final(e).death_timer == old(e).death_timer
            &&& final(e).recoil_timer == old(e).recoil_timer
            &&& final(e).recoil_dir == old(e).recoil_dir
            &&& final(e).aggroed == old(e).aggroed && final(e).hidden == old(e).hidden
            &&& same_but_hit(*final(e), *old(e))
        },
{
    if !e.status_flags[0] {
        return;
    }
    e.status_flags[0] = false;
    let mut i: usize = 0;
    while i < e.battler.statuses.len()
        invariant
            i <= e.battler.statuses@.len(),
            old(e).status_flags[0],
            e.battler.statuses@ == old(e).battler.statuses@,
            forall|j: int| 0 <= j < i ==> e.battler.statuses@[j].kind != 0,
            e.status_flags@ == old(e).status_flags@.update(0, false),
            e.battler.floaters == old(e).battler.floaters,
            e.battler.state == old(e).battler.state,
            e.battler.anim_frame == old(e).battler.anim_frame,
            e.hp == old(e).hp && e.death_timer == old(e).death_timer,
            e.recoil_timer == old(e).recoil_timer && e.recoil_dir == old(e).recoil_dir,
            e.aggroed == old(e).aggroed && e.hidden == old(e).hidden,
            same_but_hit(*e, *old(e)),
        decreases e.battler.statuses@.len() - i,
    {
        if e.battler.statuses[i].kind == 0 {
            proof {
                lemma_first_freeze_icon(e.battler.statuses@, i as int);
            }
            e.battler.statuses.remove(i);
            return;
        }
        i = i + 1;
    }
    proof {
        lemma_first_freeze_icon(e.battler.statuses@, i as int);
    }
}

/// The damage a guardian hit of `raw` (negative counts as 0) deals across
/// elements: `raw * multiplier / 10` in the JVM's 32-bit arithmetic.
pub open spec fn guardian_damage(raw: i32, guardian_element: int, element: int) -> i32 {
    let r = if raw < 0 { 0i32 } else { raw };
    spec_java_div(
        vstd::wrapping::i32_specs::wrapping_mul(r, ELEMENT_DAMAGE_MULTIPLIER@[guardian_element]@[element] as i32),
        10,
    )
}

/// `take_guardian_hit(raw_damage, guardian_element)`: a guardian's area attack.
/// Unless the enemy is dying or dead, it is unfrozen, engaged and revealed,
/// loses the element-scaled damage (floated as a number plus a hit spark),
/// recoils, and starts dying (state 5, frame 0, death timer 3) when no hit
/// points are left.
pub fn take_guardian_hit(e: &mut EnemyData, raw_damage: i32, guardian_element: i8)
    requires
        0 <= guardian_element < 4,
        0 <= old(e).stats.element < 4,
    ensures
        old(e).battler.state == STATE_DEAD || old(e).battler.state == STATE_DYING ==> *final(e)
            == *old(e),
        !(old(e).battler.state == STATE_DEAD || old(e).battler.state == STATE_DYING) ==> {
            let dmg = guardian_damage(raw_damage, guardian_element as int, old(e).stats.element as int);
            let n = old(e).battler.floaters@.len();
            &&& final(e).hp == hp_after(old(e).hp, dmg)
            &&& final(e).aggroed && !final(e).hidden
            &&& !final(e).status_flags[0]
            &&& final(e).battler.floaters@.len() == n + 2
            &&& final(e).battler.floaters@.take(n as int) == old(e).battler.floaters@
            &&& damage_number(final(e).battler.floaters@[n as int], dmg as i16)
            &&& final(e).battler.floaters@[n + 1int].data.kind == 1
            &&& final(e).battler.floaters@[n + 1int].lifetime == 3
            &&& final(e).recoil_timer == 4 && final(e).recoil_dir == 4
            &&& final(e).hp <= 0 ==> {
                &&& final(e).battler.state == STATE_DYING
                &&& final(e).battler.anim_frame == 0
                &&& final(e).death_timer == 3
            }
            &&& final(e).hp > 0 ==> {
                &&& final(e).battler.state == old(e).battler.state
                &&& final(e).death_timer == old(e).death_timer
            }
            &&& same_but_hit(*final(e), *old(e))
        },
{
    if e.battler.state == STATE_DEAD || e.battler.state == STATE_DYING {
        return;
    }
    clear_stun(e);
    e.aggroed = true;
    e.hidden = false;
    let element = e.stats.element;
    let mut raw = raw_damage;
    if raw < 0 {
        raw = 0;
    }
    let mult = ELEMENT_DAMAGE_MULTIPLIER[guardian_element as usize][element as usize] as i32;
    let final_damage = match java_div(raw.wrapping_mul(mult), 10) {
        Some(q) => q,
        None => 0,
    };
    let ghost n = e.battler.floaters@.len();
    e.hp = (e.hp as i32).wrapping_sub(final_damage) as i16;
    e.battler.floaters.push(floater::new(7, 4, final_damage as i16));
    e.battler.floaters.push(floater::new_default(1));
    e.recoil_timer = 4;
    e.recoil_dir = 4;
    if e.hp <= 0 {
        set_state(e, STATE_DYING);
        e.battler.anim_frame = 0;
        e.death_timer = 3;
    }
    assert(e.battler.floaters@.take(n as int) =~= old(e).battler.floaters@);
}


/// The absolute tile distance `|b - a|` as a byte (truncated past 127).
pub open spec fn tile_gap(a: i8, b: i8) -> i8 {
    let d = b as int - a as int;
    (if d > 0 { d } else { -d }) as i8
}

/// `tile_dist_x(other)`: the absolute tile-column distance to `other`.
pub fn tile_dist_x(arena: &EntityArena, id: EntityId, other: EntityId) -> (r: i8)
    requires
        id < arena@.len(),
        other < arena@.len(),
    ensures
        r == tile_gap(arena@[id as int].tile_x, arena@[other as int].tile_x),
{
    let d = arena.node(other).tile_x as i32 - arena.node(id).tile_x as i32;
    if d > 0 {
        d as i8
    } else {
        (0 - d) as i8
    }
}

/// `tile_dist_y(other)`: the absolute tile-row distance to `other`.
pub fn tile_dist_y(arena: &EntityArena, id: EntityId, other: EntityId) -> (r: i8)
    requires
        id < arena@.len(),
        other < arena@.len(),
    ensures
        r == tile_gap(arena@[id as int].tile_y, arena@[other as int].tile_y),
{
    let d = arena.node(other).tile_y as i32 - arena.node(id).tile_y as i32;
    if d > 0 {
        d as i8
    } else {
        (0 - d) as i8
    }
}

/// How far an enemy looks for a target: its sight range, widened to 8 tiles
/// once engaged, or to 100 for a relentless one.
pub open spec fn search_range(e: EnemyData) -> i8 {
    if e.aggroed {
        if e.stats.relentless { 100 } else { 8 }
    } else {
        e.stats.sight_range
    }
}

/// `pick_target(hero, guardian)` with no guardian in play: the hero when it is
/// within the search range on both axes, else `None`.
pub fn pick_target(e: &EnemyData, arena: &EntityArena, id: EntityId, hero: EntityId) -> (r: Option<EntityId>)
    requires
        id < arena@.len(),
        hero < arena@.len(),
    ensures
        r == (if tile_gap(arena@[id as int].tile_x, arena@[hero as int].tile_x) <= search_range(*e)
            && tile_gap(arena@[id as int].tile_y, arena@[hero as int].tile_y) <= search_range(*e) {
            Some(hero)
        } else {
            None
        }),
{
    let reach: i8 = if e.aggroed {
        if e.stats.relentless {
            100
        } else {
            8
        }
    } else {
        e.stats.sight_range
    };
    if tile_dist_x(arena, id, hero) <= reach && tile_dist_y(arena, id, hero) <= reach {
        Some(hero)
    } else {
        None
    }
}


/// The recovery time after an attack: the template's hurt delay plus one,
/// doubled (plus one) while status 1 is on; a byte.
pub open spec fn recovery(e: EnemyData) -> i8 {
    if e.status_flags@[1] {
        (e.stats.hurt_delay * 2 + 1) as i8
    } else {
        (e.stats.hurt_delay + 1) as i8
    }
}

/// The cooldown armed on entering idle or attacking: the attack delay plus the
/// charge built up; a byte.
pub open spec fn armed_cooldown(e: EnemyData) -> i8 {
    (e.stats.attack_delay + e.attack_charge) as i8
}

/// `e` with the cooldowns armed and the charge spent.
pub open spec fn armed(e: EnemyData) -> EnemyData {
    EnemyData { attack_cooldown: armed_cooldown(e), attack_charge: 0, hurt_cooldown: recovery(e), ..e }
}

/// `e` in state `s` with its animation at frame 0.
pub open spec fn settled(e: EnemyData, s: i8) -> EnemyData {
    EnemyData { battler: BattlerData { state: s, anim_frame: 0, ..e.battler }, ..e }
}

/// `enter_idle(quick)` from `e` with the shared generator at `seed`: the enemy
/// and the generator state after it.
pub open spec fn idled(e: EnemyData, seed: int, quick: bool) -> (EnemyData, int) {
    let a = armed(e);
    if quick {
        let s = lcg_next(seed);
        let r = rand_range_value(1, 7, lcg_output(s));
        let hc = spec_java_div(vstd::wrapping::i32_specs::wrapping_mul(a.hurt_cooldown as i32, r), 10) as i8;
        (settled(EnemyData { hurt_cooldown: hc, ..a }, STATE_IDLE), s)
    } else {
        (settled(a, STATE_IDLE), seed)
    }
}

/// `begin_attack()` from `e`.
pub open spec fn attacking(e: EnemyData) -> EnemyData {
    settled(armed(EnemyData { hidden: false, ..e }), STATE_ATTACKING)
}

/// `wander()` from `e` with the entity generator at `rng` and the shared one
/// at `seed`: the enemy and both generator states after it.
pub open spec fn wandered(e: EnemyData, rng: int, seed: int) -> (EnemyData, int, int) {
    let s1 = lcg_next(rng);
    let s2 = lcg_next(s1);
    let moved: (EnemyData, int) = if lcg_output(s1) > 0 {
        (with_state(e, STATE_STEPPING), seed)
    } else {
        idled(e, seed, true)
    };
    let facing = (spec_java_rem(lcg_output(s2) & 255, 4) + 1) as i8;
    (EnemyData { battler: BattlerData { facing: facing, move_dir: facing, ..moved.0.battler }, ..moved.0 }, s2, moved.1)
}

fn arm_cooldowns(e: &mut EnemyData)
    ensures
        *final(e) == armed(*old(e)),
{
    e.attack_cooldown = (e.stats.attack_delay as i32 + e.attack_charge as i32) as i8;
    e.attack_charge = 0;
    if e.status_flags[1] {
        e.hurt_cooldown = (e.stats.hurt_delay as i32 * 2 + 1) as i8;
    } else {
        e.hurt_cooldown = (e.stats.hurt_delay as i32 + 1) as i8;
    }
}

/// `enter_idle(quick_recover)`: arms the cooldowns, spends the charge and goes
/// idle (state 1, frame 0); a quick recovery scales the hurt cooldown by a
/// random 1..7 tenths (one draw from `byte_util`).
pub fn enter_idle(e: &mut EnemyData, byte_util: &mut ByteUtilState, quick_recover: bool)
    ensures
        (*final(e), final(byte_util).rng@) == idled(*old(e), old(byte_util).rng@, quick_recover),
{
    arm_cooldowns(e);
    if quick_recover {
        let hc = e.hurt_cooldown as i32;
        let r = rand_range(byte_util, 1, 7);
        let v = match java_div(hc.wrapping_mul(r), 10) {
            Some(q) => q,
            None => 0,
        };
        e.hurt_cooldown = v as i8;
    }
    set_state(e, STATE_IDLE);
    e.battler.anim_frame = 0;
}

/// `begin_attack()`: reveals the enemy, arms the cooldowns, spends the charge
/// and starts the attack (state 3, frame 0).
pub fn begin_attack(e: &mut EnemyData)
    ensures
        *final(e) == attacking(*old(e)),
{
    e.hidden = false;
    arm_cooldowns(e);
    set_state(e, STATE_ATTACKING);
    e.battler.anim_frame = 0;
}

/// `wander()`: on a positive draw from the entity generator `rng` the enemy
/// steps (state 2), else it idles with a quick recovery; then it faces a random
/// direction 1..4 from the next draw.
pub fn wander(e: &mut EnemyData, rng: &mut JavaRandom, byte_util: &mut ByteUtilState)
    ensures
        (*final(e), final(rng)@, final(byte_util).rng@) == wandered(*old(e), old(rng)@, old(byte_util).rng@),
{
    if rng.next_int() > 0 {
        set_state(e, STATE_STEPPING);
    } else {
        enter_idle(e, byte_util, true);
    }
    let r = rng.next_int();
    let facing = match java_rem(r & 255, 4) {
        Some(m) => m + 1,
        None => 1,
    };
    proof {
        assert(0 <= r & 255 < 256) by (bit_vector);
    }
    crate::battler::set_facing(&mut e.battler, facing as i8);
}

/// What a death leaves for the world to carry out.
pub struct DeathOutcome {
    /// Queue a respawn at the home tile (every enemy but the unique ones,
    /// nameplate colour 2).
    pub respawn: bool,
    /// The loot rolled from the drop table: kind and parameter.
    pub drop: Option<(i8, i8)>,
    /// Drop money worth [`DeathOutcome::money_value`].
    pub money: bool,
    /// The money dropped: three per monster level.
    pub money_value: i16,
    /// Drop a rare item.
    pub rare_item: bool,
    /// Experience for the hero (awarded when positive).
    pub exp_gain: i32,
}

/// One draw of [`rand_range`] over `lo..=hi` from generator state `seed`: the
/// value and the new state.
#[verifier::opaque]
pub open spec fn draw(seed: int, lo: i32, hi: i32) -> (i32, int) {
    let s = lcg_next(seed);
    (rand_range_value(lo, hi, lcg_output(s)), s)
}

/// [`rand_range`] over a range of 1 to 150 values, as one [`draw`].
fn draw_exec(byte_util: &mut ByteUtilState, lo: i32, hi: i32) -> (r: i32)
    requires
        1 <= lo <= hi <= 150,
    ensures
        (r, final(byte_util).rng@) == draw(old(byte_util).rng@, lo, hi),
{
    let r = rand_range(byte_util, lo, hi);
    proof {
        reveal(draw);
    }
    r
}

/// The loot scan from entry `i` of `table` (three bytes per entry: kind,
/// parameter, weight) with `roll` left and generator state `seed`: each entry's
/// weight is taken off the roll; the first entry that brings it to 0 or below
/// drops, except that a weight-1 entry drops only on a further 20% draw.
pub open spec fn loot_scan(table: Seq<i8>, i: int, n: int, roll: i32, seed: int) -> (Option<(i8, i8)>, int)
    decreases n - i,
{
    if i >= n {
        (None, seed)
    } else {
        let w = table[3 * i + 2];
        let rem = vstd::wrapping::i32_specs::wrapping_sub(roll, w as i32);
        if rem <= 0 {
            if w == 1 {
                let d = draw(seed, 1, 100);
                if d.0 <= 20 {
                    (Some((table[3 * i], table[3 * i + 1])), d.1)
                } else {
                    loot_scan(table, i + 1, n, rem, d.1)
                }
            } else {
                (Some((table[3 * i], table[3 * i + 1])), seed)
            }
        } else {
            loot_scan(table, i + 1, n, rem, seed)
        }
    }
}

/// The experience a kill at `level` gives a hero at `hero_level`: level times
/// a scale of 20 less the level gap (at most 26), halved.
pub open spec fn exp_for(level: i8, hero_level: i8) -> i32 {
    let scale = 20 - (hero_level - level);
    let capped = if scale > 26 { 26 } else { scale };
    spec_java_div((level * capped) as i32, 2)
}

/// The loot scan of `die()` over `table` (see [`loot_scan`]).
#[verifier::rlimit(60)]
fn scan_loot(table: &Vec<i8>, roll0: i32, byte_util: &mut ByteUtilState) -> (drop: Option<(i8, i8)>)
    requires
        table@.len() <= i32::MAX,
    ensures
        ({
            let total = loot_scan(table@, 0, table@.len() as int / 3, roll0, old(byte_util).rng@);
            drop == total.0 && final(byte_util).rng@ == total.1
        }),
{
    let n: usize = table.len() / 3;
    let ghost total = loot_scan(table@, 0, n as int, roll0, byte_util.rng@);
    let mut roll = roll0;
    let mut i: usize = 0;
    while i < n
        invariant
            i <= n,
            n == table@.len() / 3,
            table@.len() <= i32::MAX,
            total == loot_scan(table@, 0, table@.len() as int / 3, roll0, old(byte_util).rng@),
            loot_scan(table@, i as int, n as int, roll, byte_util.rng@) == total,
        decreases n - i,
    {
        assert(3 * i + 2 < table@.len()) by (nonlinear_arith)
            requires
                i < n,
                n == table@.len() / 3,
        ;
        let k = 3 * i;
        let w = table[k + 2];
        let remaining = roll.wrapping_sub(w as i32);
        let ghost seed = byte_util.rng@;
        if remaining <= 0 {
            if w == 1 {
                let d = draw_exec(byte_util, 1, 100);
                if d <= 20 {
                    assert(loot_scan(table@, i as int, n as int, roll, seed) == (
                        Some((table@[k as int], table@[k + 1])),
                        byte_util.rng@,
                    ));
                    return Some((table[k], table[k + 1]));
                }
            } else {
                assert(loot_scan(table@, i as int, n as int, roll, seed) == (
                    Some((table@[k as int], table@[k + 1])),
                    seed,
                ));
                return Some((table[k], table[k + 1]));
            }
        }
        roll = remaining;
        i = i + 1;
    }
    None
}

/// The world's share of the death of `e` with the shared generator at `seed`
/// and the hero at `hero_level`, and the generator state after it: a 1..150
/// loot roll scanned through the drop table, a 60% money drop, and a rare-item
/// chance of 20% plus the level gap.
pub open spec fn death_outcome(e: EnemyData, seed: int, hero_level: i8) -> (DeathOutcome, int) {
    let table = e.stats.drop_table@;
    let roll = draw(seed, 1, 150);
    let loot = loot_scan(table, 0, table.len() as int / 3, roll.0, roll.1);
    let money = draw(loot.1, 1, 100);
    let rare = draw(money.1, 1, 100);
    (
        DeathOutcome {
            respawn: e.stats.elem_color != 2,
            drop: loot.0,
            money: money.0 <= 60,
            money_value: (e.stats.level * 3) as i16,
            rare_item: rare.0 <= 20 + (e.stats.level - hero_level),
            exp_gain: exp_for(e.stats.level, hero_level),
        },
        rare.1,
    )
}

/// `die()`: the enemy becomes a corpse (state 6), its death explosion is
/// spawned onto the map (see [`death_effect`]), and the world's share of the
/// death is decided from `byte_util`: a 1..150 loot roll scanned through the
/// drop table, a 60% money drop, and a rare-item chance of 20% plus the level
/// gap to the hero at `hero_level`.
pub fn die(
    e: &mut EnemyData,
    byte_util: &mut ByteUtilState,
    hero_level: i8,
    map: &mut GameMapState,
    arena: &mut EntityArena,
    id: EntityId,
    death_fx_scripts: &Vec<Option<Vec<i8>>>,
) -> (r: (DeathOutcome, (EntityId, EffectData)))
    requires
        death_fits(*old(e), *old(map), old(arena)@, id, death_fx_scripts@),
    ensures
        *final(e) == with_state(*old(e), STATE_DEAD),
        (r.0, final(byte_util).rng@) == death_outcome(*old(e), old(byte_util).rng@, hero_level),
        death_effect_spawned(*old(e), *old(map), old(arena)@, *final(map), final(arena)@, id, death_fx_scripts@, r.1),
{
    set_state(e, STATE_DEAD);
    let ghost seed0 = byte_util.rng@;
    let roll = draw_exec(byte_util, 1, 150);
    let drop = scan_loot(&e.stats.drop_table, roll, byte_util);
    let money = draw_exec(byte_util, 1, 100) <= 60;
    let level = e.stats.level as i32;
    let rare_item = draw_exec(byte_util, 1, 100) <= 20 + (level - hero_level as i32);
    let mut scale: i32 = 20 - (hero_level as i32 - level);
    if scale > 26 {
        scale = 26;
    }
    assert(-30080 <= level * scale <= 30080) by (nonlinear_arith)
        requires
            -128 <= level <= 127,
            -235 <= scale <= 26,
    ;
    let exp_gain = match java_div(level * scale, 2) {
        Some(q) => q,
        None => 0,
    };
    let out = DeathOutcome {
        respawn: e.stats.elem_color != 2,
        drop,
        money,
        money_value: (level * 3) as i16,
        rare_item,
        exp_gain,
    };
    let fx = death_effect(e, map, arena, id, death_fx_scripts);
    (out, fx)
}

/// What the death of `e` (entity `id`) needs: a drop table whose length fits
/// an `int`, the death-effect script of its size, and a well-formed draw list.
pub open spec fn death_fits(
    e: EnemyData,
    map: GameMapState,
    arena: Seq<EntityNode>,
    id: EntityId,
    scripts: Seq<Option<Vec<i8>>>,
) -> bool {
    &&& e.stats.drop_table@.len() <= i32::MAX
    &&& id < arena.len()
    &&& 0 <= e.stats.size < scripts.len()
    &&& scripts[e.stats.size as int] matches Some(sc) && sc@.len() >= 1
    &&& map.entities.wf(arena)
}

/// The death explosion of `e` (its size's script) spawned at the tile of entity
/// `id` and added to the map (see [`effect_spawned`]).
pub open spec fn death_effect_spawned(
    e: EnemyData,
    map0: GameMapState,
    arena0: Seq<EntityNode>,
    map: GameMapState,
    arena: Seq<EntityNode>,
    id: EntityId,
    scripts: Seq<Option<Vec<i8>>>,
    fx: (EntityId, EffectData),
) -> bool {
    effect_spawned(map0, arena0, map, arena, fx, arena0[id as int].tile_x, arena0[id as int].tile_y, scripts[e.stats.size as int]->0@)
}

/// Whoever occupies the tile `d` ahead of `n` in `dir` (see [`neighbor`]).
pub open spec fn occupant_ahead(map: GameMapState, n: EntityNode, dir: i8, d: i8) -> Option<EntityId> {
    match neighbor_cell(n, dir, d, map.width_tiles, map.height_tiles) {
        Some(cell) => map.occupancy->0@[cell.0]@[cell.1],
        None => None,
    }
}

/// [`neighbor`] can look `d` tiles ahead of `n` in `dir`.
pub open spec fn ahead_fits(map: GameMapState, n: EntityNode, dir: i8, d: i8) -> bool {
    &&& map.occupancy is Some
    &&& neighbor_cell(n, dir, d, map.width_tiles, map.height_tiles) matches Some(cell) ==> cell_in(
        map.occupancy->0@,
        cell.0,
        cell.1,
    )
}

/// The look one to three tiles ahead for `hero` stays on the grid until it
/// finds it.
pub open spec fn reach_fits(map: GameMapState, n: EntityNode, dir: i8, hero: EntityId) -> bool {
    &&& ahead_fits(map, n, dir, 1)
    &&& occupant_ahead(map, n, dir, 1) != Some(hero) ==> {
        &&& ahead_fits(map, n, dir, 2)
        &&& occupant_ahead(map, n, dir, 2) != Some(hero) ==> ahead_fits(map, n, dir, 3)
    }
}

/// `hero` stands one to three tiles ahead of `n` in `dir`.
pub open spec fn hero_in_reach(map: GameMapState, n: EntityNode, dir: i8, hero: EntityId) -> bool {
    ||| occupant_ahead(map, n, dir, 1) == Some(hero)
    ||| occupant_ahead(map, n, dir, 2) == Some(hero)
    ||| occupant_ahead(map, n, dir, 3) == Some(hero)
}

/// Close fighters (AI types 0 and 1) strike the tiles they face; reach
/// fighters (2 and 3) strike up to three tiles ahead.
pub open spec fn is_close_ai(ai: i8) -> bool {
    ai == 0 || ai == 1
}

pub open spec fn is_reach_ai(ai: i8) -> bool {
    ai == 2 || ai == 3
}

/// The enemy `e` (entity `id` at node `n`) strikes now: recovered, and the
/// hero stands in the tiles it faces (a close fighter) or within its reach (a
/// reach fighter).
pub open spec fn strikes_hero(e: EnemyData, map: GameMapState, n: EntityNode, id: EntityId, hero: EntityId) -> bool {
    &&& e.hurt_cooldown == 0
    &&& if is_close_ai(e.stats.ai_type) && scan_dir(map.occupancy->0@, n, id, e.battler.facing, Some(hero), 0)
        == Some(hero) {
        true
    } else {
        is_reach_ai(e.stats.ai_type) && hero_in_reach(map, n, e.battler.facing, hero)
    }
}

/// The tiles `try_attack` looks at lie on the grid.
pub open spec fn attack_reads_fit(e: EnemyData, map: GameMapState, n: EntityNode, hero: EntityId) -> bool {
    e.hurt_cooldown == 0 ==> {
        &&& dir_scan_fits(map, n, e.battler.facing)
        &&& is_reach_ai(e.stats.ai_type) ==> reach_fits(map, n, e.battler.facing, hero)
    }
}

/// The hero is within the enemy's search range on both axes.
pub open spec fn target_in_range(e: EnemyData, arena: Seq<EntityNode>, id: EntityId, hero: EntityId) -> bool {
    &&& tile_gap(arena[id as int].tile_x, arena[hero as int].tile_x) <= search_range(e)
    &&& tile_gap(arena[id as int].tile_y, arena[hero as int].tile_y) <= search_range(e)
}

/// `try_attack()` from `e` with the entity generator at `rng` and the shared one
/// at `seed`: strike when it can; else, once the attack cooldown is spent, take
/// the hero as target when in range, or wander.
pub open spec fn tried_attack(
    e: EnemyData,
    map: GameMapState,
    arena: Seq<EntityNode>,
    id: EntityId,
    hero: EntityId,
    rng: int,
    seed: int,
) -> (EnemyData, int, int) {
    if strikes_hero(e, map, arena[id as int], id, hero) {
        (attacking(e), rng, seed)
    } else if e.attack_cooldown == 0 {
        if target_in_range(e, arena, id, hero) {
            (EnemyData { target: Some(hero), ..e }, rng, seed)
        } else {
            wandered(e, rng, seed)
        }
    } else {
        (e, rng, seed)
    }
}

/// `try_attack()` of enemy `e`, entity `id`, against `hero`: strikes when it
/// can (see [`strikes_hero`]); else, with the attack cooldown spent, targets
/// the hero when in range or wanders. With no guardian in play the pursuit
/// step is the caller's.
pub fn try_attack(
    e: &mut EnemyData,
    map: &GameMapState,
    arena: &EntityArena,
    id: EntityId,
    hero: EntityId,
    rng: &mut JavaRandom,
    byte_util: &mut ByteUtilState,
)
    requires
        id < arena@.len(),
        hero < arena@.len(),
        attack_reads_fit(*old(e), *map, arena@[id as int], hero),
    ensures
        (*final(e), final(rng)@, final(byte_util).rng@) == tried_attack(
            *old(e),
            *map,
            arena@,
            id,
            hero,
            old(rng)@,
            old(byte_util).rng@,
        ),
{
    let ai = e.stats.ai_type;
    let facing = e.battler.facing;
    if e.hurt_cooldown == 0 {
        let in_dir_is_hero = entity_in_dir(map, arena, id, facing, Some(hero)) == Some(hero);
        if (ai != 0 && ai != 1) || !in_dir_is_hero {
            if ai == 2 || ai == 3 {
                if neighbor(map, arena, id, facing, 1) == Some(hero) {
                    begin_attack(e);
                    return;
                }
                if neighbor(map, arena, id, facing, 2) == Some(hero) {
                    begin_attack(e);
                    return;
                }
                if neighbor(map, arena, id, facing, 3) == Some(hero) {
                    begin_attack(e);
                    return;
                }
            }
        } else {
            begin_attack(e);
            return;
        }
    }
    if e.attack_cooldown == 0 {
        match pick_target(e, arena, id, hero) {
            None => wander(e, rng, byte_util),
            Some(p) => {
                e.target = Some(p);
            },
        }
    }
}

/// Whether `chase()` from `e` goes idle before its attack try: its charge has
/// reached twice the attack delay, or else the next draw of the entity
/// generator at `rng` is not positive.
pub open spec fn chase_settles(e: EnemyData, rng: int) -> bool {
    e.attack_charge >= e.stats.attack_delay * 2 || lcg_output(lcg_next(rng)) <= 0
}

/// `e` after banking one attack delay of charge, its attack cooldown cleared.
pub open spec fn charged(e: EnemyData) -> EnemyData {
    EnemyData { attack_charge: (e.attack_charge + e.stats.attack_delay) as i8, attack_cooldown: 0, ..e }
}

/// The entity generator after `chase()`'s own draw (none when the charge alone
/// decides).
pub open spec fn chase_rng(e: EnemyData, rng: int) -> int {
    if e.attack_charge >= e.stats.attack_delay * 2 {
        rng
    } else {
        lcg_next(rng)
    }
}

/// `chase()` from `e`.
pub open spec fn chased(
    e: EnemyData,
    map: GameMapState,
    arena: Seq<EntityNode>,
    id: EntityId,
    hero: EntityId,
    rng: int,
    seed: int,
) -> (EnemyData, int, int) {
    let e1 = if chase_settles(e, rng) { idled(e, seed, false).0 } else { charged(e) };
    tried_attack(e1, map, arena, id, hero, chase_rng(e, rng), seed)
}

/// The tiles `chase()` looks at lie on the grid.
pub open spec fn chase_reads_fit(e: EnemyData, map: GameMapState, n: EntityNode, hero: EntityId, rng: int) -> bool {
    if chase_settles(e, rng) {
        attack_reads_fit(idled(e, 0, false).0, map, n, hero)
    } else {
        attack_reads_fit(charged(e), map, n, hero)
    }
}

/// `chase()`: attacks now, going idle first, once the banked charge reaches
/// twice the attack delay or on a non-positive draw; else banks one more
/// attack delay of charge, clears the attack cooldown and tries to attack.
pub fn chase(
    e: &mut EnemyData,
    map: &GameMapState,
    arena: &EntityArena,
    id: EntityId,
    hero: EntityId,
    rng: &mut JavaRandom,
    byte_util: &mut ByteUtilState,
)
    requires
        id < arena@.len(),
        hero < arena@.len(),
        chase_reads_fit(*old(e), *map, arena@[id as int], hero, old(rng)@),
    ensures
        (*final(e), final(rng)@, final(byte_util).rng@) == chased(
            *old(e),
            *map,
            arena@,
            id,
            hero,
            old(rng)@,
            old(byte_util).rng@,
        ),
{
    let delay = e.stats.attack_delay as i32;
    if e.attack_charge as i32 >= delay * 2 || rng.next_int() <= 0 {
        enter_idle(e, byte_util, false);
        try_attack(e, map, arena, id, hero, rng, byte_util);
    } else {
        e.attack_charge = (e.attack_charge as i32 + delay) as i8;
        e.attack_cooldown = 0;
        try_attack(e, map, arena, id, hero, rng, byte_util);
    }
}

/// `e` (not dying with frames left on its death timer) after the death check
/// of `update_ai()`: dead, with the world's share and the generator state, when
/// dying; else unchanged.
pub open spec fn after_death_check(e: EnemyData, seed: int, hero_level: i8) -> (EnemyData, int, Option<DeathOutcome>) {
    if e.battler.state == STATE_DYING {
        let d = death_outcome(e, seed, hero_level);
        (with_state(e, STATE_DEAD), d.1, Some(d.0))
    } else {
        (e, seed, None)
    }
}

/// One step of the state dispatch of `update_ai()` from `e`: idle tries to
/// attack; stepping on a tile boundary chases; attacking, once the cast
/// animation is over, goes idle and tries again; knockback counts down and
/// returns to idle when spent.
pub open spec fn dispatched(
    e: EnemyData,
    map: GameMapState,
    arena: Seq<EntityNode>,
    id: EntityId,
    hero: EntityId,
    rng: int,
    seed: int,
) -> (EnemyData, int, int) {
    let n = arena[id as int];
    let state = e.battler.state;
    if state == STATE_IDLE {
        tried_attack(e, map, arena, id, hero, rng, seed)
    } else if state == STATE_STEPPING {
        if !(n.off_grid_x || n.off_grid_y) {
            chased(e, map, arena, id, hero, rng, seed)
        } else {
            (e, rng, seed)
        }
    } else if state == STATE_ATTACKING {
        if e.battler.anim_frame >= e.stats.cast_frames {
            tried_attack(idled(e, seed, false).0, map, arena, id, hero, rng, seed)
        } else {
            (e, rng, seed)
        }
    } else if state == STATE_KNOCKBACK {
        let e1 = if e.battler.knockback_timer < 1 { with_state(e, STATE_IDLE) } else { e };
        (
            EnemyData {
                battler: BattlerData { knockback_timer: (e1.battler.knockback_timer - 1) as i8, ..e1.battler },
                ..e1
            },
            rng,
            seed,
        )
    } else {
        (e, rng, seed)
    }
}

/// `update_ai()` from `e` against `hero` (at `hero_level`): the enemy, both
/// generator states and the world's share of a death on this step.
pub open spec fn updated_ai(
    e: EnemyData,
    map: GameMapState,
    arena: Seq<EntityNode>,
    id: EntityId,
    hero: EntityId,
    hero_level: i8,
    rng: int,
    seed: int,
) -> (EnemyData, int, int, Option<DeathOutcome>) {
    if e.battler.state == STATE_DYING && e.death_timer >= 1 {
        (EnemyData { death_timer: (e.death_timer - 1) as i8, ..e }, rng, seed, None)
    } else {
        let d = after_death_check(e, seed, hero_level);
        if d.0.status_flags[0] || d.0.status_flags[2] {
            (idled(d.0, d.1, false).0, rng, d.1, d.2)
        } else {
            let r = dispatched(d.0, map, arena, id, hero, rng, d.1);
            (r.0, r.1, r.2, d.2)
        }
    }
}

/// What `update_ai()` from `e` reads lies in bounds: the drop table of a dying
/// enemy fits an `int`, and the tiles its attack tries look at lie on the grid.
pub open spec fn ai_reads_fit(e: EnemyData, map: GameMapState, n: EntityNode, hero: EntityId, rng: int) -> bool {
    let state = e.battler.state;
    &&& state == STATE_DYING && e.death_timer < 1 ==> e.stats.drop_table@.len() <= i32::MAX
    &&& !(state == STATE_DYING) && !(e.status_flags[0] || e.status_flags[2]) ==> {
        &&& state == STATE_IDLE ==> attack_reads_fit(e, map, n, hero)
        &&& state == STATE_STEPPING && !(n.off_grid_x || n.off_grid_y) ==> chase_reads_fit(e, map, n, hero, rng)
        &&& state == STATE_ATTACKING && e.battler.anim_frame >= e.stats.cast_frames ==> attack_reads_fit(
            idled(e, 0, false).0,
            map,
            n,
            hero,
        )
    }
}

/// `update_ai()`: the AI state machine of enemy `e` (entity `id`) against
/// `hero` at `hero_level`. A dying enemy counts its death timer down, then
/// dies (the returned outcome is the world's share); a frozen or status-2
/// enemy goes idle; otherwise the state dispatch of [`dispatched`] runs.
pub fn update_ai(
    e: &mut EnemyData,
    map: &mut GameMapState,
    arena: &mut EntityArena,
    id: EntityId,
    hero: EntityId,
    hero_level: i8,
    death_fx_scripts: &Vec<Option<Vec<i8>>>,
    rng: &mut JavaRandom,
    byte_util: &mut ByteUtilState,
) -> (death: Option<(DeathOutcome, (EntityId, EffectData))>)
    requires
        id < old(arena)@.len(),
        hero < old(arena)@.len(),
        ai_reads_fit(*old(e), *old(map), old(arena)@[id as int], hero, old(rng)@),
        old(e).battler.state == STATE_DYING && old(e).death_timer < 1 ==> death_fits(
            *old(e),
            *old(map),
            old(arena)@,
            id,
            death_fx_scripts@,
        ),
    ensures
        ({
            let u = updated_ai(*old(e), *old(map), old(arena)@, id, hero, hero_level, old(rng)@, old(byte_util).rng@);
            &&& *final(e) == u.0 && final(rng)@ == u.1 && final(byte_util).rng@ == u.2
            &&& u.3 == match death {
                Some(d) => Some(d.0),
                None => None,
            }
            &&& death is None ==> *final(map) == *old(map) && final(arena)@ == old(arena)@
            &&& death matches Some(d) ==> death_effect_spawned(
                *old(e),
                *old(map),
                old(arena)@,
                *final(map),
                final(arena)@,
                id,
                death_fx_scripts@,
                d.1,
            )
        }),
{
    let n = arena.node(id);
    let aligned = !(n.off_grid_x || n.off_grid_y);
    if e.battler.state == STATE_DYING {
        if e.death_timer >= 1 {
            e.death_timer = (e.death_timer as i32 - 1) as i8;
            return None;
        }
        let d = die(e, byte_util, hero_level, map, arena, id, death_fx_scripts);
        if e.status_flags[0] || e.status_flags[2] {
            enter_idle(e, byte_util, false);
        }
        return Some(d);
    }
    if e.status_flags[0] || e.status_flags[2] {
        enter_idle(e, byte_util, false);
        return None;
    }
    let state = e.battler.state;
    if state == STATE_IDLE {
        try_attack(e, map, arena, id, hero, rng, byte_util);
    } else if state == STATE_STEPPING {
        if aligned {
            chase(e, map, arena, id, hero, rng, byte_util);
        }
    } else if state == STATE_ATTACKING {
        if e.battler.anim_frame >= e.stats.cast_frames {
            enter_idle(e, byte_util, false);
            try_attack(e, map, arena, id, hero, rng, byte_util);
        }
    } else if state == STATE_KNOCKBACK {
        if e.battler.knockback_timer < 1 {
            set_state(e, STATE_IDLE);
        }
        e.battler.knockback_timer = (e.battler.knockback_timer as i32 - 1) as i8;
    }
    None
}

/// What lands on the attack's hit frame.
pub enum Strike {
    /// Nothing lands.
    Miss,
    /// A close strike on the hero.
    Melee,
    /// A reach strike on the hero, with this floater to show over the hero.
    Reach(Overlay),
    /// A projectile to launch from tile `(tile_x, tile_y)` in direction `dir`,
    /// drawn with the attack-effect script of row `script`.
    Projectile { tile_x: i8, tile_y: i8, dir: i8, script: i8 },
}

/// What lands when enemy `e` (entity `id` at node `n`) reaches the hit frame
/// of its kind: a close fighter's strike on the hero in the tiles it faces; a
/// reach fighter of type 2 strikes the hero within three tiles (with an
/// emoticon floater of the enemy's row), one of type 3 launches a projectile
/// from the tile ahead in its step direction.
pub open spec fn strike_of(e: EnemyData, map: GameMapState, n: EntityNode, id: EntityId, hero: EntityId) -> Strike {
    let ai = e.stats.ai_type;
    let facing = e.battler.facing;
    if e.battler.anim_frame != ATTACK_HIT_FRAME@[e.kind as int] - 1 {
        Strike::Miss
    } else if is_close_ai(ai) && scan_dir(map.occupancy->0@, n, id, facing, Some(hero), 0) == Some(hero) {
        Strike::Melee
    } else if ai == 2 {
        if hero_in_reach(map, n, facing, hero) {
            Strike::Reach(floater::fresh(9, -1i16, e.stat_row as i16))
        } else {
            Strike::Miss
        }
    } else if ai == 3 {
        if hero_in_reach(map, n, facing, hero) {
            Strike::Projectile {
                tile_x: (n.tile_x + DIR_DX@[e.battler.move_dir as int]) as i8,
                tile_y: (n.tile_y + DIR_DY@[e.battler.move_dir as int]) as i8,
                dir: e.battler.move_dir,
                script: e.stat_row,
            }
        } else {
            Strike::Miss
        }
    } else {
        Strike::Miss
    }
}

/// Lands `strike` on the hero, whose combatant fields are `hero`: a reach
/// strike shows its floater over the hero; nothing else of the hero changes.
/// Returns whether the strike hits the hero (a melee or a reach strike), whose
/// damage the hero's own hit routine then takes.
pub fn land_strike(strike: Strike, hero: &mut BattlerData) -> (struck: bool)
    ensures
        struck == (strike is Melee || strike is Reach),
        match strike {
            Strike::Reach(o) => final(hero).floaters@ == old(hero).floaters@.push(o),
            _ => final(hero).floaters@ == old(hero).floaters@,
        },
        final(hero).statuses@ == old(hero).statuses@,
        final(hero).state == old(hero).state,
        final(hero).facing == old(hero).facing,
        final(hero).move_dir == old(hero).move_dir,
        final(hero).anim_frame == old(hero).anim_frame,
        final(hero).knockback_timer == old(hero).knockback_timer,
{
    match strike {
        Strike::Miss => false,
        Strike::Melee => true,
        Strike::Reach(o) => {
            hero.floaters.push(o);
            true
        },
        Strike::Projectile { .. } => false,
    }
}

/// What `resolve_attack()` reads lies in bounds: the kind's hit frame, and on
/// that frame the tiles looked at and the step direction.
pub open spec fn strike_reads_fit(e: EnemyData, map: GameMapState, n: EntityNode, hero: EntityId) -> bool {
    let ai = e.stats.ai_type;
    let facing = e.battler.facing;
    &&& 0 <= e.kind < 42
    &&& e.battler.anim_frame == ATTACK_HIT_FRAME@[e.kind as int] - 1 ==> {
        &&& is_close_ai(ai) ==> dir_scan_fits(map, n, facing)
        &&& is_reach_ai(ai) ==> reach_fits(map, n, facing, hero)
        &&& ai == 3 ==> 0 <= e.battler.move_dir < 9
    }
}

/// `resolve_attack()`: reveals the enemy and, on its kind's hit frame, decides
/// what lands (see [`strike_of`]); the caller applies it to the hero or the
/// map.
pub fn resolve_attack(e: &mut EnemyData, map: &GameMapState, arena: &EntityArena, id: EntityId, hero: EntityId) -> (r: Strike)
    requires
        id < arena@.len(),
        strike_reads_fit(*old(e), *map, arena@[id as int], hero),
    ensures
        *final(e) == (EnemyData { hidden: false, ..*old(e) }),
        r == strike_of(*old(e), *map, arena@[id as int], id, hero),
{
    e.hidden = false;
    let ai = e.stats.ai_type;
    let facing = e.battler.facing;
    if e.battler.anim_frame as i32 != ATTACK_HIT_FRAME[e.kind as usize] as i32 - 1 {
        return Strike::Miss;
    }
    if (ai == 0 || ai == 1) && entity_in_dir(map, arena, id, facing, Some(hero)) == Some(hero) {
        return Strike::Melee;
    }
    if ai == 2 || ai == 3 {
        let mut found = neighbor(map, arena, id, facing, 1) == Some(hero);
        if !found {
            found = neighbor(map, arena, id, facing, 2) == Some(hero);
        }
        if !found {
            found = neighbor(map, arena, id, facing, 3) == Some(hero);
        }
        if !found {
            return Strike::Miss;
        }
        if ai == 2 {
            return Strike::Reach(floater::new(9, -1, e.stat_row as i16));
        }
        let n = arena.node(id);
        let dir = e.battler.move_dir;
        return Strike::Projectile {
            tile_x: (n.tile_x as i32 + DIR_DX[dir as usize] as i32) as i8,
            tile_y: (n.tile_y as i32 + DIR_DY[dir as usize] as i32) as i8,
            dir,
            script: e.stat_row,
        };
    }
    Strike::Miss
}

/// `e` with its animation frame set to `f`.
pub open spec fn with_frame(e: EnemyData, f: i8) -> EnemyData {
    EnemyData { battler: BattlerData { anim_frame: f, ..e.battler }, ..e }
}

/// `e` with its animation wrapped to 0 once it reaches `frames`.
pub open spec fn wrapped(e: EnemyData, frames: i8) -> EnemyData {
    if e.battler.anim_frame >= frames { with_frame(e, 0) } else { e }
}

/// `step_death_anim()`: the death animation wraps at the walk-cycle length.
pub fn step_death_anim(e: &mut EnemyData)
    ensures
        *final(e) == wrapped(*old(e), old(e).stats.walk_frames),
{
    if e.battler.anim_frame >= e.stats.walk_frames {
        e.battler.anim_frame = 0;
    }
}

/// The summon timer of an engaged summoner winds down and rearms at -10 when
/// it reaches 0.
pub open spec fn summon_ticked(e: EnemyData) -> EnemyData {
    if e.stats.summons_allies && e.aggroed {
        let t: i8 = if e.summon_timer > 0 { (e.summon_timer - 1) as i8 } else { e.summon_timer };
        EnemyData { summon_timer: if t == 0 { -10i8 } else { t }, ..e }
    } else {
        e
    }
}

/// Winds the summon timer (see [`summon_ticked`]).
pub(crate) fn tick_summon(e: &mut EnemyData)
    ensures
        *final(e) == summon_ticked(*old(e)),
{
    if e.stats.summons_allies && e.aggroed {
        if e.summon_timer > 0 {
            e.summon_timer = (e.summon_timer as i32 - 1) as i8;
        }
        if e.summon_timer == 0 {
            e.summon_timer = -10;
        }
    }
}

/// A positive countdown one lower.
pub open spec fn count_down(t: i8) -> i8 {
    if t > 0 { (t - 1) as i8 } else { t }
}

/// `animate()` from `e`: the enemy after it and what landed.
pub open spec fn animated(e: EnemyData, map: GameMapState, n: EntityNode, id: EntityId, hero: EntityId) -> (EnemyData, Strike) {
    let e1 = summon_ticked(e);
    let state = e1.battler.state;
    if state == STATE_STEPPING {
        (wrapped(e1, e1.stats.attack_frames), Strike::Miss)
    } else if state == STATE_ATTACKING {
        (EnemyData { hidden: false, ..e1 }, strike_of(e1, map, n, id, hero))
    } else if state == STATE_DYING {
        (wrapped(e1, e1.stats.walk_frames), Strike::Miss)
    } else {
        let e2 = wrapped(e1, e1.stats.walk_frames);
        (
            EnemyData {
                hurt_cooldown: count_down(e2.hurt_cooldown),
                attack_cooldown: count_down(e2.attack_cooldown),
                ..e2
            },
            Strike::Miss,
        )
    }
}

/// `animate()`: winds an engaged summoner's timer, then by state wraps the
/// animation (stepping at the attack length, dying and the rest at the walk
/// length), resolves an attack, or counts the hurt and attack cooldowns down.
pub fn animate(e: &mut EnemyData, map: &GameMapState, arena: &EntityArena, id: EntityId, hero: EntityId) -> (r: Strike)
    requires
        id < arena@.len(),
        summon_ticked(*old(e)).battler.state == STATE_ATTACKING ==> strike_reads_fit(
            summon_ticked(*old(e)),
            *map,
            arena@[id as int],
            hero,
        ),
    ensures
        (*final(e), r) == animated(*old(e), *map, arena@[id as int], id, hero),
{
    tick_summon(e);
    let state = e.battler.state;
    if state == STATE_STEPPING {
        if e.battler.anim_frame >= e.stats.attack_frames {
            e.battler.anim_frame = 0;
        }
        Strike::Miss
    } else if state == STATE_ATTACKING {
        resolve_attack(e, map, arena, id, hero)
    } else if state == STATE_DYING {
        step_death_anim(e);
        Strike::Miss
    } else {
        if e.battler.anim_frame >= e.stats.walk_frames {
            e.battler.anim_frame = 0;
        }
        if e.hurt_cooldown > 0 {
            e.hurt_cooldown = (e.hurt_cooldown as i32 - 1) as i8;
        }
        if e.attack_cooldown > 0 {
            e.attack_cooldown = (e.attack_cooldown as i32 - 1) as i8;
        }
        Strike::Miss
    }
}

/// What spawning a script-fed effect at tile `(tile_x, tile_y)` with `script`
/// leaves: the new node (`id`, at the tile's corner pixel) linked into the
/// map's draw list, and the effect's state.
pub open spec fn effect_spawned(
    map0: GameMapState,
    arena0: Seq<EntityNode>,
    map: GameMapState,
    arena: Seq<EntityNode>,
    r: (EntityId, EffectData),
    tile_x: i8,
    tile_y: i8,
    script: Seq<i8>,
) -> bool {
    let node = effect_node(spec_ishl(tile_x as i32, 4) as i16, spec_ishl(tile_y as i32, 4) as i16);
    &&& r.0 == arena0.len()
    &&& links_and_marks_only_changed(arena0.push(node), arena)
    &&& map.entities.wf(arena)
    &&& forall|x: EntityId| map.entities.ids().contains(x) <==> (map0.entities.ids().contains(x) || x == r.0)
    &&& r.1.frame_count == script[0] as i16
    &&& r.1.frame == 0 && r.1.type_ == 100 && r.1.frame_bank is None
    &&& r.1.sprite_script matches Some(v) && v@ == script
}

/// Spawns a script-fed effect at the tile and links it into the map's draw
/// list.
fn spawn_script_effect(
    map: &mut GameMapState,
    arena: &mut EntityArena,
    script: Vec<i8>,
    tile_x: i8,
    tile_y: i8,
) -> (r: (EntityId, EffectData))
    requires
        script@.len() >= 1,
        old(map).entities.wf(old(arena)@),
    ensures
        effect_spawned(*old(map), old(arena)@, *final(map), final(arena)@, r, tile_x, tile_y, script@),
{
    let ghost nodes0 = arena@;
    let (id, eff) = new_effect_from_script(arena, tile_x, tile_y, script);
    proof {
        crate::entity_list::lemma_wf_push(map.entities, nodes0, arena@.last(), id);
        assert(nodes0.push(arena@.last()) =~= arena@);
    }
    add_entity(map, arena, id);
    (id, eff)
}

/// `spawn_effect_at(tile_x, tile_y)`: the enemy's attack effect (its row of the
/// attack-effect scripts) spawned at the tile and added to the map.
pub fn spawn_effect_at(
    e: &EnemyData,
    map: &mut GameMapState,
    arena: &mut EntityArena,
    attack_effect_scripts: &Vec<Option<Vec<i8>>>,
    tile_x2: i8,
    tile_y2: i8,
) -> (r: (EntityId, EffectData))
    requires
        0 <= e.stat_row < attack_effect_scripts@.len(),
        attack_effect_scripts@[e.stat_row as int] matches Some(s) && s@.len() >= 1,
        old(map).entities.wf(old(arena)@),
    ensures
        effect_spawned(
            *old(map),
            old(arena)@,
            *final(map),
            final(arena)@,
            r,
            tile_x2,
            tile_y2,
            attack_effect_scripts@[e.stat_row as int]->0@,
        ),
{
    let script = attack_effect_scripts[e.stat_row as usize].clone().unwrap();
    spawn_script_effect(map, arena, script, tile_x2, tile_y2)
}

/// `death_effect()`: the death explosion for the enemy's size (its row of the
/// death-effect scripts) spawned at its tile and added to the map.
pub fn death_effect(
    e: &EnemyData,
    map: &mut GameMapState,
    arena: &mut EntityArena,
    id: EntityId,
    death_fx_scripts: &Vec<Option<Vec<i8>>>,
) -> (r: (EntityId, EffectData))
    requires
        id < old(arena)@.len(),
        0 <= e.stats.size < death_fx_scripts@.len(),
        death_fx_scripts@[e.stats.size as int] matches Some(s) && s@.len() >= 1,
        old(map).entities.wf(old(arena)@),
    ensures
        effect_spawned(
            *old(map),
            old(arena)@,
            *final(map),
            final(arena)@,
            r,
            old(arena)@[id as int].tile_x,
            old(arena)@[id as int].tile_y,
            death_fx_scripts@[e.stats.size as int]->0@,
        ),
{
    let n = arena.node(id);
    let tx = n.tile_x;
    let ty = n.tile_y;
    let script = death_fx_scripts[e.stats.size as usize].clone().unwrap();
    spawn_script_effect(map, arena, script, tx, ty)
}

/// Where an enemy at node `n` is drawn with the world origin at `(ox, oy)`:
/// its pixel position plus its half-size, shifted right 8 pixels per layer
/// beyond the first.
pub open spec fn paint_pos(n: EntityNode, ox: i32, oy: i32) -> (i32, i32) {
    (
        wadd(wadd(wadd(ox, n.pixel_x as i32), n.half_w as i32), wmul(wsub(n.layer as i32, 1), 8)),
        wadd(wadd(oy, n.pixel_y as i32), n.half_h as i32),
    )
}

/// A drawing position 16 pixels or more off the `width` x `world_height` view
/// (32 below it).
pub open spec fn off_view(sx: i32, sy: i32, width: i32, world_height: i32) -> bool {
    wadd(sx, 16) < 0 || sy < 0 || wsub(sx, 16) > width || sy > wadd(world_height, 32)
}

/// The drawing position shaken 3 pixels along the recoil direction on recoil
/// frames 3 and 1.
pub open spec fn recoiled(e: EnemyData, x: i32, y: i32) -> (i32, i32) {
    if e.recoil_timer == 3 || e.recoil_timer == 1 {
        (
            wadd(x, wmul(DIR_DX@[e.recoil_dir as int] as i32, 3)),
            wadd(y, wmul(DIR_DY@[e.recoil_dir as int] as i32, 3)),
        )
    } else {
        (x, y)
    }
}

/// The enemy's frame group: twelve per stat row (walk at 4, attack at 8,
/// standing at 0), one per step direction.
pub open spec fn enemy_frame_group(e: EnemyData) -> i32 {
    let off: i32 = if e.battler.state == STATE_STEPPING {
        4
    } else if e.battler.state == STATE_ATTACKING {
        8
    } else {
        0
    };
    wadd(wadd(wmul(e.stat_row as i32, 12), off), wsub(e.battler.move_dir as i32, 1))
}

/// The script of frame group `fg` in the frame bank (none when the bank or
/// the group is not loaded).
pub open spec fn bank_script(frames: Option<Seq<Option<Vec<i8>>>>, fg: i32) -> Option<Seq<i8>> {
    match frames {
        None => None,
        Some(b) => match b[fg as int] {
            Some(v) => Some(v@),
            None => None,
        },
    }
}

/// The bank as a sequence, if loaded.
pub open spec fn bank_of(frames: Option<&Vec<Option<Vec<i8>>>>) -> Option<Seq<Option<Vec<i8>>>> {
    match frames {
        Some(b) => Some(b@),
        None => None,
    }
}

/// The enemy's drawing steps on the `width` x `world_height` view (see
/// [`paint`]).
pub open spec fn enemy_paint_ops(
    e: EnemyData,
    n: EntityNode,
    width: i32,
    world_height: i32,
    frames: Option<Seq<Option<Vec<i8>>>>,
    loaded: Seq<Option<Vec<bool>>>,
    ox: i32,
    oy: i32,
) -> Seq<GlyphOp> {
    let p = paint_pos(n, ox, oy);
    let clip = GlyphOp::SetClip(0, 0, width, world_height);
    if off_view(p.0, p.1, width, world_height) {
        seq![clip, GlyphOp::Floaters(p.0, p.1)]
    } else if e.hidden {
        Seq::empty()
    } else {
        let d = recoiled(e, p.0, p.1);
        let shadow = if e.kind != 22 && e.kind != 16 {
            if n.layer == 1 {
                seq![GlyphOp::DrawShadow(d.0, wsub(d.1, 3))]
            } else {
                seq![GlyphOp::SetColor(2047807), GlyphOp::FillArc(wsub(d.0, 11), wsub(d.1, 6), 22, 9, 0, 360)]
            }
        } else {
            Seq::empty()
        };
        let body = group_frame_blits(bank_script(frames, enemy_frame_group(e)), e.battler.anim_frame, loaded, d.0, d.1);
        seq![clip] + shadow + sprite_ops(body) + seq![
            GlyphOp::StatusIcons(p.0, wsub(p.1, wmul(e.stats.size as i32, 3))),
            GlyphOp::Floaters(p.0, p.1),
        ]
    }
}

/// What the enemy's drawing reads lies in bounds: the recoil direction, the
/// frame group in the bank, and the group's script.
pub open spec fn enemy_paint_fits(
    e: EnemyData,
    n: EntityNode,
    width: i32,
    world_height: i32,
    frames: Option<Seq<Option<Vec<i8>>>>,
    loaded: Seq<Option<Vec<bool>>>,
    ox: i32,
    oy: i32,
) -> bool {
    let p = paint_pos(n, ox, oy);
    let fg = enemy_frame_group(e);
    !off_view(p.0, p.1, width, world_height) && !e.hidden ==> {
        &&& (e.recoil_timer == 3 || e.recoil_timer == 1) ==> 0 <= e.recoil_dir < 9
        &&& frames matches Some(b) ==> 0 <= fg < b.len()
        &&& bank_script(frames, fg) matches Some(sc) ==> sc.len() <= i32::MAX
        &&& group_drawable(bank_script(frames, fg), e.battler.anim_frame, loaded)
    }
}

/// `paint(graphics, origin_x, origin_y)` of an enemy at node `n` on the
/// `width` x `world_height` view, with the enemy frame bank `enemy_frames` and
/// the sprite banks as loaded (`loaded`): off the view only its floaters are
/// drawn and it is marked off screen; a hidden enemy draws nothing; otherwise
/// its ground shadow (an image, or an ellipse for a wide enemy; none for kinds
/// 16 and 22), its frame group, its status icons and its floaters.
pub fn paint(
    e: &mut EnemyData,
    n: &EntityNode,
    width: i32,
    world_height: i32,
    enemy_frames: Option<&Vec<Option<Vec<i8>>>>,
    loaded: &Vec<Option<Vec<bool>>>,
    origin_x: i32,
    origin_y: i32,
) -> (ops: Vec<GlyphOp>)
    requires
        enemy_paint_fits(*old(e), *n, width, world_height, bank_of(enemy_frames), loaded@, origin_x, origin_y),
    ensures
        ops@ == enemy_paint_ops(*old(e), *n, width, world_height, bank_of(enemy_frames), loaded@, origin_x, origin_y),
        *final(e) == (EnemyData {
            on_screen: !off_view(
                paint_pos(*n, origin_x, origin_y).0,
                paint_pos(*n, origin_x, origin_y).1,
                width,
                world_height,
            ),
            ..*old(e)
        }),
{
    let sx = origin_x.wrapping_add(n.pixel_x as i32).wrapping_add(n.half_w as i32).wrapping_add(
        (n.layer as i32).wrapping_sub(1).wrapping_mul(8),
    );
    let sy = origin_y.wrapping_add(n.pixel_y as i32).wrapping_add(n.half_h as i32);
    let mut ops: Vec<GlyphOp> = Vec::new();
    if sx.wrapping_add(16) < 0 || sy < 0 || sx.wrapping_sub(16) > width || sy > world_height.wrapping_add(32) {
        ops.push(GlyphOp::SetClip(0, 0, width, world_height));
        ops.push(GlyphOp::Floaters(sx, sy));
        e.on_screen = false;
        return ops;
    }
    e.on_screen = true;
    if e.hidden {
        return ops;
    }
    let mut dx = sx;
    let mut dy = sy;
    if e.recoil_timer == 3 || e.recoil_timer == 1 {
        dy = dy.wrapping_add((DIR_DY[e.recoil_dir as usize] as i32).wrapping_mul(3));
        dx = dx.wrapping_add((DIR_DX[e.recoil_dir as usize] as i32).wrapping_mul(3));
    }
    let off: i32 = if e.battler.state == STATE_STEPPING {
        4
    } else if e.battler.state == STATE_ATTACKING {
        8
    } else {
        0
    };
    let fg = (e.stat_row as i32).wrapping_mul(12).wrapping_add(off).wrapping_add((e.battler.move_dir as i32).wrapping_sub(1));
    let script: Option<&[i8]> = match enemy_frames {
        None => None,
        Some(b) => match &b[fg as usize] {
            Some(v) => Some(v.as_slice()),
            None => None,
        },
    };
    ops.push(GlyphOp::SetClip(0, 0, width, world_height));
    if e.kind != 22 && e.kind != 16 {
        if n.layer == 1 {
            ops.push(GlyphOp::DrawShadow(dx, dy.wrapping_sub(3)));
        } else {
            ops.push(GlyphOp::SetColor(2047807));
            ops.push(GlyphOp::FillArc(dx.wrapping_sub(11), dy.wrapping_sub(6), 22, 9, 0, 360));
        }
    }
    let blits = draw_frame_group(loaded, script, e.battler.anim_frame, dx, dy);
    push_sprites(&mut ops, &blits);
    ops.push(GlyphOp::StatusIcons(sx, sy.wrapping_sub((e.stats.size as i32).wrapping_mul(3))));
    ops.push(GlyphOp::Floaters(sx, sy));
    proof {
        assert(ops@ =~= enemy_paint_ops(*old(e), *n, width, world_height, bank_of(enemy_frames), loaded@, origin_x, origin_y));
    }
    ops
}


/// `t` and `u` are the same template: equal fields, equal name and loot table.
pub open spec fn same_template(t: EnemyTypeData, u: EnemyTypeData) -> bool {
    &&& t.name@ == u.name@
    &&& t.drop_table@ == u.drop_table@
    &&& t.size == u.size && t.elem_color == u.elem_color && t.element == u.element
    &&& t.ai_type == u.ai_type && t.relentless == u.relentless && t.armored == u.armored
    &&& t.summons_allies == u.summons_allies && t.ambush == u.ambush
    &&& t.summon_ward_element == u.summon_ward_element && t.level == u.level
    &&& t.max_hp == u.max_hp && t.attack == u.attack && t.defense == u.defense
    &&& t.evasion == u.evasion && t.sight_range == u.sight_range
    &&& t.attack_delay == u.attack_delay && t.hurt_delay == u.hurt_delay
    &&& t.exp_reward == u.exp_reward && t.walk_frames == u.walk_frames
    &&& t.attack_frames == u.attack_frames && t.cast_frames == u.cast_frames
    &&& t.die_frames == u.die_frames
}

fn copy_template(t: &EnemyTypeData) -> (r: EnemyTypeData)
    ensures
        same_template(r, *t),
{
    EnemyTypeData {
        name: t.name.clone(),
        size: t.size,
        elem_color: t.elem_color,
        element: t.element,
        ai_type: t.ai_type,
        relentless: t.relentless,
        armored: t.armored,
        summons_allies: t.summons_allies,
        ambush: t.ambush,
        summon_ward_element: t.summon_ward_element,
        level: t.level,
        max_hp: t.max_hp,
        attack: t.attack,
        defense: t.defense,
        evasion: t.evasion,
        sight_range: t.sight_range,
        attack_delay: t.attack_delay,
        hurt_delay: t.hurt_delay,
        exp_reward: t.exp_reward,
        drop_table: t.drop_table.clone(),
        walk_frames: t.walk_frames,
        attack_frames: t.attack_frames,
        cast_frames: t.cast_frames,
        die_frames: t.die_frames,
    }
}

/// The template of stat row `stat_row` is loaded.
pub open spec fn template_loaded(types: EnemyTypeState, stat_row: i8) -> bool {
    &&& types.types is Some
    &&& 0 <= stat_row < types.types->0@.len()
    &&& types.types->0@[stat_row as int] is Some
}

/// The loaded template of stat row `stat_row`.
pub open spec fn template_of(types: EnemyTypeState, stat_row: i8) -> EnemyTypeData {
    types.types->0@[stat_row as int]->0
}

/// The draw layer of an enemy of template `t`: 2 for a size-2 monster, else 1.
pub open spec fn enemy_layer(t: EnemyTypeData) -> i8 {
    if t.size == 2 {
        2
    } else {
        1
    }
}

/// A fresh enemy's node at pixel `(pixel_x, pixel_y)`: an 8-by-8 half-size, its
/// tile derived from the pixel position, on `layer`, unlinked.
pub open spec fn enemy_node(pixel_x: i16, pixel_y: i16, layer: i8) -> EntityNode {
    EntityNode {
        tile_x: crate::jvm::spec_ishr(pixel_x as i32, 4) as i8,
        tile_y: crate::jvm::spec_ishr(pixel_y as i32, 4) as i8,
        off_grid_x: (pixel_x as i32 & 15) != 0,
        off_grid_y: (pixel_y as i32 & 15) != 0,
        pixel_x,
        pixel_y,
        half_w: 8,
        half_h: 8,
        next: None,
        prev: None,
        layer,
        removed: false,
        kind: EntityKind::Bare,
    }
}

/// `e` is a fresh enemy of `kind` on template `t` (row `stat_row`) whose home
/// is the tile `(tile_x, tile_y)`: full hit points, the template's cooldowns,
/// hidden when the template ambushes, summon timer -10, on screen, idle and
/// facing down, with no charge, timers, statuses, target or floaters.
pub open spec fn fresh_enemy(e: EnemyData, t: EnemyTypeData, kind: i8, stat_row: i8, tile_x: i8, tile_y: i8) -> bool {
    &&& same_template(e.stats, t)
    &&& e.kind == kind && e.stat_row == stat_row
    &&& e.home_tile_x == tile_x as i32 && e.home_tile_y == tile_y as i32
    &&& e.hp == t.max_hp
    &&& e.attack_charge == 0
    &&& e.attack_cooldown == t.attack_delay && e.hurt_cooldown == t.hurt_delay
    &&& e.death_timer == 0 && e.recoil_timer == 0 && e.recoil_dir == 0
    &&& !e.aggroed
    &&& e.hidden == t.ambush
    &&& e.status_flags@ == seq![false, false, false, false, false]
    &&& e.target is None
    &&& e.summon_timer == -10
    &&& e.on_screen
    &&& e.battler.floaters@.len() == 0 && e.battler.statuses@.len() == 0
    &&& e.battler.state == STATE_IDLE && e.battler.facing == 2 && e.battler.move_dir == 2
    &&& e.battler.anim_frame == -1 && e.battler.knockback_timer == 0
}

/// The occupancy grid `new` is `old` with the cells of `n`'s footprint set to
/// `id`: same shape, every other cell unchanged.
pub open spec fn stamped(old: Seq<Vec<Option<EntityId>>>, new: Seq<Vec<Option<EntityId>>>, n: EntityNode, id: EntityId) -> bool {
    &&& new.len() == old.len()
    &&& forall|r: int| 0 <= r < new.len() ==> (#[trigger] new[r])@.len() == old[r]@.len()
    &&& forall|r: int, c: int|
        0 <= r < new.len() && 0 <= c < new[r]@.len() ==> #[trigger] new[r]@[c] == if occupies(n, r, c) {
            Some(id)
        } else {
            old[r]@[c]
        }
}

/// The enemy record and node of a fresh enemy of template `t`.
pub(crate) fn build_enemy(t: &EnemyTypeData, pixel_x: i16, pixel_y: i16, kind: i8, stat_row: i8) -> (r: (EnemyData, EntityNode))
    ensures
        r.1 == enemy_node(pixel_x, pixel_y, enemy_layer(*t)),
        fresh_enemy(r.0, *t, kind, stat_row, r.1.tile_x, r.1.tile_y),
{
    let stats = copy_template(t);
    let mut node = EntityNode::new();
    node.layer = if stats.size == 2 { 2 } else { 1 };
    init_base(&mut node, pixel_x, pixel_y, 8, 8);
    let e = EnemyData {
        battler: BattlerData::new(),
        kind,
        stat_row,
        home_tile_x: node.tile_x as i32,
        home_tile_y: node.tile_y as i32,
        hp: stats.max_hp,
        attack_charge: 0,
        attack_cooldown: stats.attack_delay,
        hurt_cooldown: stats.hurt_delay,
        death_timer: 0,
        recoil_timer: 0,
        recoil_dir: 0,
        aggroed: false,
        hidden: stats.ambush,
        status_flags: [false; 5],
        target: None,
        summon_timer: -10,
        on_screen: true,
        stats,
    };
    assert(e.status_flags@ =~= seq![false, false, false, false, false]);
    (e, node)
}

/// `new_enemy(pixel_x, pixel_y, kind, stat_row)`: a fresh enemy of the template
/// of row `stat_row` (see [`fresh_enemy`]); its node (see [`enemy_node`]) is
/// appended to `arena`, and its footprint is stamped into the map's occupancy.
/// Returns the node's id and the enemy record.
pub fn new_enemy(
    arena: &mut EntityArena,
    map: &mut GameMapState,
    types: &EnemyTypeState,
    pixel_x: i16,
    pixel_y: i16,
    kind: i8,
    stat_row: i8,
) -> (r: (EntityId, EnemyData))
    requires
        template_loaded(*types, stat_row),
        old(map).occupancy is Some,
        footprint_fits(
            old(map).occupancy->0@,
            enemy_node(pixel_x, pixel_y, enemy_layer(template_of(*types, stat_row))),
        ),
    ensures
        r.0 == old(arena)@.len(),
        final(arena)@ == old(arena)@.push(
            enemy_node(pixel_x, pixel_y, enemy_layer(template_of(*types, stat_row))),
        ),
        fresh_enemy(
            r.1,
            template_of(*types, stat_row),
            kind,
            stat_row,
            final(arena)@[r.0 as int].tile_x,
            final(arena)@[r.0 as int].tile_y,
        ),
        final(map).occupancy is Some,
        stamped(old(map).occupancy->0@, final(map).occupancy->0@, final(arena)@[r.0 as int], r.0),
        *final(map) == (GameMapState { occupancy: final(map).occupancy, ..*old(map) }),
{
    let table = types.types.as_ref().unwrap();
    let t = table[stat_row as usize].as_ref().unwrap();
    let (e, node) = build_enemy(t, pixel_x, pixel_y, kind, stat_row);
    let id = arena.alloc_node(node);
    set_occupancy(map, arena, id);
    (id, e)
}


/// One knockback count-down of `e`: idle first when the timer has run out.
pub open spec fn knocked_back_step(e: EnemyData) -> EnemyData {
    let e1 = if e.battler.knockback_timer < 1 { with_state(e, STATE_IDLE) } else { e };
    EnemyData { battler: BattlerData { knockback_timer: (e1.battler.knockback_timer - 1) as i8, ..e1.battler }, ..e1 }
}

proof fn lemma_enemy_dispatch_knockback(
    e: EnemyData,
    map: GameMapState,
    arena: Seq<EntityNode>,
    id: EntityId,
    hero: EntityId,
    rng: int,
    seed: int,
)
    requires
        e.battler.state == STATE_KNOCKBACK,
    ensures
        dispatched(e, map, arena, id, hero, rng, seed) == (knocked_back_step(e), rng, seed),
{
}

proof fn lemma_enemy_updated_knockback(
    e: EnemyData,
    map: GameMapState,
    arena: Seq<EntityNode>,
    id: EntityId,
    hero: EntityId,
    hero_level: i8,
    rng: int,
    seed: int,
)
    requires
        e.battler.state == STATE_KNOCKBACK,
        !e.status_flags[0],
        !e.status_flags[2],
    ensures
        updated_ai(e, map, arena, id, hero, hero_level, rng, seed) == (knocked_back_step(e), rng, seed, None::<DeathOutcome>),
{
    lemma_enemy_dispatch_knockback(e, map, arena, id, hero, rng, seed);
}

/// An enemy in knockback that is neither frozen nor stunned counts its
/// knockback timer down by one on each AI tick: once the timer has run out
/// (below 1) the tick returns it to idle, and before that it stays in
/// knockback. Nothing else of it changes, neither generator is drawn from,
/// and it does not die.
pub proof fn lemma_enemy_knockback_recovers(
    e: EnemyData,
    map: GameMapState,
    arena: Seq<EntityNode>,
    id: EntityId,
    hero: EntityId,
    hero_level: i8,
    rng: int,
    seed: int,
)
    requires
        e.battler.state == STATE_KNOCKBACK,
        !e.status_flags[0],
        !e.status_flags[2],
    ensures
        ({
            let u = updated_ai(e, map, arena, id, hero, hero_level, rng, seed);
            &&& e.battler.knockback_timer < 1 ==> u.0.battler.state == STATE_IDLE
            &&& e.battler.knockback_timer >= 1 ==> u.0.battler.state == STATE_KNOCKBACK
            &&& e.battler.knockback_timer > i8::MIN ==> u.0.battler.knockback_timer == e.battler.knockback_timer - 1
            &&& u.0 == (EnemyData {
                battler: BattlerData {
                    state: u.0.battler.state,
                    knockback_timer: u.0.battler.knockback_timer,
                    ..e.battler
                },
                ..e
            })
            &&& u.1 == rng && u.2 == seed && u.3 is None
        }),
{
    lemma_enemy_updated_knockback(e, map, arena, id, hero, hero_level, rng, seed);
}


/// A dying enemy counts its death timer down, one per AI tick, and dies (its
/// share of the world's reward is handed out) on the tick after the timer has
/// run out; no other tick hands anything out.
pub proof fn lemma_enemy_dies_when_timer_runs_out(
    e: EnemyData,
    map: GameMapState,
    arena: Seq<EntityNode>,
    id: EntityId,
    hero: EntityId,
    hero_level: i8,
    rng: int,
    seed: int,
)
    ensures
        ({
            let u = updated_ai(e, map, arena, id, hero, hero_level, rng, seed);
            &&& u.3 is Some <==> (e.battler.state == STATE_DYING && e.death_timer < 1)
            &&& e.battler.state == STATE_DYING && e.death_timer >= 1 ==> {
                &&& u.0 == (EnemyData { death_timer: (e.death_timer - 1) as i8, ..e })
                &&& u.0.death_timer == e.death_timer - 1
                &&& u.1 == rng && u.2 == seed
            }
        }),
{
    let u = updated_ai(e, map, arena, id, hero, hero_level, rng, seed);
    if !(e.battler.state == STATE_DYING && e.death_timer >= 1) {
        let d = after_death_check(e, seed, hero_level);
        if !(d.0.status_flags[0] || d.0.status_flags[2]) {
            let r = dispatched(d.0, map, arena, id, hero, rng, d.1);
            assert(u == (r.0, r.1, r.2, d.2));
        }
    }
}

/// Losing `amount` hit points leaves `hp - amount` whenever that fits a
/// 16-bit value.
pub proof fn lemma_hp_after_subtracts(hp: i16, amount: i32)
    requires
        i16::MIN <= hp - amount <= i16::MAX,
    ensures
        hp_after(hp, amount) == hp - amount,
{
}

} // verus!
