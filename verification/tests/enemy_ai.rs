use soltia::bitmap_font::GlyphOp;
use soltia::base_canvas::BaseCanvasState;
use soltia::battler::{self, BattlerData};
use soltia::byte_util::{ByteUtilState, JavaRandom};
use soltia::enemy::{self, EnemyData, Strike};
use soltia::enemy_type::EnemyTypeData;
use soltia::entity::{EntityArena, EntityId};
use soltia::game_map::{self, GameMapClassState, GameMapState};

fn stats_for(ai_type: i8) -> EnemyTypeData {
    EnemyTypeData {
        name: Vec::new(),
        size: 1,
        elem_color: 0,
        element: 0,
        ai_type,
        relentless: false,
        armored: false,
        summons_allies: false,
        ambush: false,
        summon_ward_element: 0,
        level: 3,
        max_hp: 20,
        attack: 5,
        defense: 2,
        evasion: 1,
        sight_range: 4,
        attack_delay: 3,
        hurt_delay: 2,
        exp_reward: 7,
        drop_table: vec![1, 2, 100],
        walk_frames: 4,
        attack_frames: 4,
        cast_frames: 5,
        die_frames: 3,
    }
}

fn fighter(ai_type: i8) -> EnemyData {
    EnemyData {
        battler: BattlerData::new(),
        kind: 0,
        stat_row: 6,
        home_tile_x: 0,
        home_tile_y: 0,
        stats: stats_for(ai_type),
        hp: 20,
        attack_charge: 0,
        attack_cooldown: 0,
        hurt_cooldown: 0,
        death_timer: 0,
        recoil_timer: 0,
        recoil_dir: 0,
        aggroed: false,
        hidden: true,
        status_flags: [false; 5],
        target: None,
        summon_timer: -10,
        on_screen: true,
    }
}

fn open_field(w: i8, h: i8) -> GameMapState {
    let mut class_state = GameMapClassState::new();
    let canvas = BaseCanvasState::new();
    let mut m = game_map::new_game_map(&mut class_state, &canvas, 1);
    let mut data: Vec<i8> = vec![3, w, h];
    data.extend(std::iter::repeat(0i8).take((w as usize) * (h as usize)));
    let _ = game_map::load(&mut m, &mut class_state, &data);
    m
}

fn stand(arena: &mut EntityArena, m: &mut GameMapState, x: i8, y: i8) -> EntityId {
    let id = arena.spawn(8, 0);
    let mut n = *arena.node(id);
    n.tile_x = x;
    n.tile_y = y;
    n.layer = 1;
    arena.set_node(id, n);
    battler::set_occupancy(m, arena, id);
    id
}

/// The death-effect scripts of sizes 0 to 2.
fn fx_scripts() -> Vec<Option<Vec<i8>>> {
    vec![Some(vec![3, 0]), Some(vec![4, 0]), Some(vec![5, 0])]
}

/// A field with the enemy at `me` and the hero at `hero`.
fn field(me: (i8, i8), hero: (i8, i8)) -> (GameMapState, EntityArena, EntityId, EntityId) {
    let mut m = open_field(6, 5);
    let mut arena = EntityArena::new();
    let e = stand(&mut arena, &mut m, me.0, me.1);
    let h = stand(&mut arena, &mut m, hero.0, hero.1);
    (m, arena, e, h)
}

#[test]
fn a_close_fighter_strikes_the_hero_it_faces() {
    let (m, arena, me, hero) = field((1, 2), (2, 2));
    let mut e = fighter(0);
    e.battler.facing = 4;
    e.attack_charge = 2;
    let mut rng = JavaRandom::new(1);
    let mut bu = ByteUtilState::seeded(2);
    enemy::try_attack(&mut e, &m, &arena, me, hero, &mut rng, &mut bu);
    assert_eq!((e.battler.state, e.battler.anim_frame), (3, 0));
    assert!(!e.hidden);
    assert_eq!((e.attack_cooldown, e.attack_charge, e.hurt_cooldown), (5, 0, 3));
}

#[test]
fn a_reach_fighter_strikes_three_tiles_out() {
    let (m, arena, me, hero) = field((0, 2), (3, 2));
    let mut e = fighter(2);
    e.battler.facing = 4;
    let mut rng = JavaRandom::new(1);
    let mut bu = ByteUtilState::seeded(2);
    enemy::try_attack(&mut e, &m, &arena, me, hero, &mut rng, &mut bu);
    assert_eq!(e.battler.state, 3);
    // a close fighter at the same distance does not
    let mut c = fighter(0);
    c.battler.facing = 4;
    c.attack_cooldown = 1;
    enemy::try_attack(&mut c, &m, &arena, me, hero, &mut rng, &mut bu);
    assert_eq!(c.battler.state, 1);
}

#[test]
fn out_of_line_the_enemy_targets_or_wanders() {
    let (m, arena, me, hero) = field((1, 2), (4, 0));
    let mut e = fighter(0);
    e.battler.facing = 4;
    let mut rng = JavaRandom::new(9);
    let mut mirror = JavaRandom::new(9);
    let mut bu = ByteUtilState::seeded(2);
    enemy::try_attack(&mut e, &m, &arena, me, hero, &mut rng, &mut bu);
    assert_eq!(e.target, Some(hero));
    assert_eq!(rng.next_int(), mirror.next_int());

    // too far to see: it wanders, drawing twice from the entity generator
    let mut w = fighter(0);
    w.stats.sight_range = 1;
    let mut rng = JavaRandom::new(9);
    let mut mirror = JavaRandom::new(9);
    enemy::try_attack(&mut w, &m, &arena, me, hero, &mut rng, &mut bu);
    assert_eq!(w.target, None);
    let first = mirror.next_int();
    let second = mirror.next_int();
    assert_eq!(w.battler.state, if first > 0 { 2 } else { 1 });
    assert_eq!(w.battler.facing as i32, (second & 255) % 4 + 1);
    assert_eq!(rng.next_int(), mirror.next_int());
}

#[test]
fn cooling_down_the_enemy_holds() {
    let (m, arena, me, hero) = field((1, 2), (2, 2));
    let mut e = fighter(0);
    e.battler.facing = 4;
    e.hurt_cooldown = 5;
    e.attack_cooldown = 2;
    let mut rng = JavaRandom::new(1);
    let mut bu = ByteUtilState::seeded(2);
    enemy::try_attack(&mut e, &m, &arena, me, hero, &mut rng, &mut bu);
    assert_eq!((e.battler.state, e.hurt_cooldown, e.attack_cooldown), (1, 5, 2));
    assert_eq!(e.target, None);
}

#[test]
fn a_full_charge_ends_the_chase() {
    let (m, arena, me, hero) = field((1, 2), (2, 2));
    let mut e = fighter(0);
    e.battler.state = 2;
    e.battler.facing = 4;
    e.attack_charge = 6;
    let mut rng = JavaRandom::new(4);
    let mut mirror = JavaRandom::new(4);
    let mut bu = ByteUtilState::seeded(2);
    enemy::chase(&mut e, &m, &arena, me, hero, &mut rng, &mut bu);
    // idle first: the hurt cooldown is armed, so no strike follows
    assert_eq!((e.battler.state, e.attack_charge, e.attack_cooldown, e.hurt_cooldown), (1, 0, 9, 3));
    assert_eq!(rng.next_int(), mirror.next_int());
}

#[test]
fn chasing_banks_charge_on_a_positive_draw() {
    let (m, arena, me, hero) = field((1, 2), (5, 4));
    for seed in 0..12i64 {
        let mut e = fighter(0);
        e.battler.state = 2;
        e.battler.facing = 4;
        e.attack_charge = 1;
        e.attack_cooldown = 4;
        e.stats.sight_range = 10;
        let mut rng = JavaRandom::new(seed);
        let mut mirror = JavaRandom::new(seed);
        let mut bu = ByteUtilState::seeded(2);
        enemy::chase(&mut e, &m, &arena, me, hero, &mut rng, &mut bu);
        if mirror.next_int() > 0 {
            assert_eq!((e.attack_charge, e.attack_cooldown), (4, 0));
            assert_eq!(e.target, Some(hero));
            assert_eq!(e.battler.state, 2);
        } else {
            assert_eq!((e.attack_charge, e.attack_cooldown, e.battler.state), (0, 4, 1));
            assert_eq!(e.target, None);
        }
    }
}

#[test]
fn the_death_timer_counts_down_then_the_enemy_dies() {
    let (mut m, mut arena, me, hero) = field((1, 2), (4, 4));
    let mut e = fighter(0);
    e.battler.state = 5;
    e.death_timer = 2;
    let mut rng = JavaRandom::new(1);
    let mut bu = ByteUtilState::seeded(7);
    assert!(enemy::update_ai(&mut e, &mut m, &mut arena, me, hero, 3, &fx_scripts(), &mut rng, &mut bu).is_none());
    assert_eq!((e.battler.state, e.death_timer), (5, 1));

    e.death_timer = 0;
    let mut twin = fighter(0);
    twin.battler.state = 5;
    let mut bu_twin = ByteUtilState::seeded(7);
    let (mut m2, mut arena2, me2, hero2) = field((1, 2), (4, 4));
    let (expected, _) = enemy::die(&mut twin, &mut bu_twin, 3, &mut m2, &mut arena2, me2, &fx_scripts());
    let _ = hero2;
    let (out, (boom, fx)) =
        enemy::update_ai(&mut e, &mut m, &mut arena, me, hero, 3, &fx_scripts(), &mut rng, &mut bu).unwrap();
    // the death explosion joins the map at the corpse's tile
    assert_eq!(boom, 2);
    assert_eq!((arena.node(boom).tile_x, arena.node(boom).tile_y), (1, 2));
    assert_eq!(fx.frame_count, 4);
    assert_eq!(e.battler.state, 6);
    assert_eq!(out.exp_gain, expected.exp_gain);
    assert_eq!(out.drop, expected.drop);
    assert_eq!(out.money, expected.money);
    assert_eq!(out.rare_item, expected.rare_item);
    assert_eq!(bu.rng.next_int(), bu_twin.rng.next_int());
}

#[test]
fn knockback_runs_out_into_idle() {
    let (mut m, mut arena, me, hero) = field((1, 2), (4, 4));
    let mut e = fighter(0);
    e.battler.state = 4;
    e.battler.knockback_timer = 2;
    let mut rng = JavaRandom::new(1);
    let mut bu = ByteUtilState::seeded(7);
    assert!(enemy::update_ai(&mut e, &mut m, &mut arena, me, hero, 3, &fx_scripts(), &mut rng, &mut bu).is_none());
    assert_eq!((e.battler.state, e.battler.knockback_timer), (4, 1));
    e.battler.knockback_timer = 0;
    enemy::update_ai(&mut e, &mut m, &mut arena, me, hero, 3, &fx_scripts(), &mut rng, &mut bu);
    assert_eq!((e.battler.state, e.battler.knockback_timer), (1, -1));
}

#[test]
fn a_frozen_enemy_goes_idle() {
    let (mut m, mut arena, me, hero) = field((1, 2), (2, 2));
    let mut e = fighter(0);
    e.battler.state = 3;
    e.battler.anim_frame = 2;
    e.battler.facing = 4;
    e.status_flags[0] = true;
    let mut rng = JavaRandom::new(1);
    let mut bu = ByteUtilState::seeded(7);
    enemy::update_ai(&mut e, &mut m, &mut arena, me, hero, 3, &fx_scripts(), &mut rng, &mut bu);
    assert_eq!((e.battler.state, e.battler.anim_frame, e.hurt_cooldown), (1, 0, 3));
}

#[test]
fn after_the_cast_the_attacker_idles_and_tries_again() {
    let (mut m, mut arena, me, hero) = field((1, 2), (2, 2));
    let mut e = fighter(0);
    e.battler.state = 3;
    e.battler.anim_frame = 5;
    e.battler.facing = 4;
    let mut rng = JavaRandom::new(1);
    let mut bu = ByteUtilState::seeded(7);
    enemy::update_ai(&mut e, &mut m, &mut arena, me, hero, 3, &fx_scripts(), &mut rng, &mut bu);
    assert_eq!((e.battler.state, e.battler.anim_frame), (1, 0));
    // mid-cast nothing happens
    let mut c = fighter(0);
    c.battler.state = 3;
    c.battler.anim_frame = 4;
    enemy::update_ai(&mut c, &mut m, &mut arena, me, hero, 3, &fx_scripts(), &mut rng, &mut bu);
    assert_eq!((c.battler.state, c.battler.anim_frame), (3, 4));
}

#[test]
fn animation_wraps_and_cooldowns_tick() {
    let (m, arena, me, hero) = field((1, 2), (4, 4));
    let mut e = fighter(0);
    e.battler.state = 2;
    e.battler.anim_frame = 4;
    assert!(matches!(enemy::animate(&mut e, &m, &arena, me, hero), Strike::Miss));
    assert_eq!(e.battler.anim_frame, 0);

    let mut idle = fighter(0);
    idle.battler.anim_frame = 2;
    idle.hurt_cooldown = 2;
    idle.attack_cooldown = 0;
    enemy::animate(&mut idle, &m, &arena, me, hero);
    assert_eq!((idle.battler.anim_frame, idle.hurt_cooldown, idle.attack_cooldown), (2, 1, 0));

    let mut dying = fighter(0);
    dying.battler.state = 5;
    dying.battler.anim_frame = 7;
    dying.hurt_cooldown = 2;
    enemy::animate(&mut dying, &m, &arena, me, hero);
    assert_eq!((dying.battler.anim_frame, dying.hurt_cooldown), (0, 2));
}

#[test]
fn an_engaged_summoner_rearms_its_timer() {
    let (m, arena, me, hero) = field((1, 2), (4, 4));
    let mut e = fighter(0);
    e.stats.summons_allies = true;
    e.aggroed = true;
    e.summon_timer = 2;
    enemy::animate(&mut e, &m, &arena, me, hero);
    assert_eq!(e.summon_timer, 1);
    enemy::animate(&mut e, &m, &arena, me, hero);
    assert_eq!(e.summon_timer, -10);
    enemy::animate(&mut e, &m, &arena, me, hero);
    assert_eq!(e.summon_timer, -10);
    e.aggroed = false;
    e.summon_timer = 3;
    enemy::animate(&mut e, &m, &arena, me, hero);
    assert_eq!(e.summon_timer, 3);
}

#[test]
fn strikes_land_only_on_the_hit_frame() {
    let (m, arena, me, hero) = field((1, 2), (2, 2));
    let mut e = fighter(0);
    e.battler.facing = 4;
    e.battler.state = 3;
    // kind 0 hits on frame 3 - 1
    e.battler.anim_frame = 1;
    assert!(matches!(enemy::resolve_attack(&mut e, &m, &arena, me, hero), Strike::Miss));
    assert!(!e.hidden);
    e.battler.anim_frame = 2;
    assert!(matches!(enemy::resolve_attack(&mut e, &m, &arena, me, hero), Strike::Melee));
    // through animate as well
    assert!(matches!(enemy::animate(&mut e, &m, &arena, me, hero), Strike::Melee));
}

#[test]
fn reach_strikes_float_an_emote_or_launch_a_projectile() {
    let (m, arena, me, hero) = field((0, 2), (2, 2));
    let mut e = fighter(2);
    e.battler.facing = 4;
    e.battler.anim_frame = 2;
    match enemy::resolve_attack(&mut e, &m, &arena, me, hero) {
        Strike::Reach(o) => {
            assert_eq!((o.data.kind, o.data.value, o.lifetime, o.frame), (9, 6, -1, 0));
        }
        _ => panic!("expected a reach strike"),
    }
    let mut p = fighter(3);
    p.battler.facing = 4;
    p.battler.move_dir = 4;
    p.battler.anim_frame = 2;
    match enemy::resolve_attack(&mut p, &m, &arena, me, hero) {
        Strike::Projectile { tile_x, tile_y, dir, script } => {
            assert_eq!((tile_x, tile_y, dir, script), (1, 2, 4, 6));
        }
        _ => panic!("expected a projectile"),
    }
    // nobody within reach
    let (m2, arena2, me2, hero2) = field((0, 2), (5, 0));
    let mut q = fighter(3);
    q.battler.facing = 4;
    q.battler.anim_frame = 2;
    assert!(matches!(enemy::resolve_attack(&mut q, &m2, &arena2, me2, hero2), Strike::Miss));
}

#[test]
fn the_death_animation_wraps_at_the_walk_length() {
    let mut e = fighter(0);
    e.battler.anim_frame = 4;
    enemy::step_death_anim(&mut e);
    assert_eq!(e.battler.anim_frame, 0);
    e.battler.anim_frame = 3;
    enemy::step_death_anim(&mut e);
    assert_eq!(e.battler.anim_frame, 3);
}

fn frame_bank(len: usize, at: usize) -> Vec<Option<Vec<i8>>> {
    let mut bank: Vec<Option<Vec<i8>>> = vec![None; len];
    // one group of one part: bank 1, image 0, no offset
    bank[at] = Some(vec![1, 1, 0, 0, 1, 0]);
    bank
}

fn body_node() -> soltia::entity::EntityNode {
    let mut n = soltia::entity::EntityNode::new();
    n.pixel_x = 32;
    n.pixel_y = 48;
    n.half_w = 8;
    n.half_h = 8;
    n
}

#[test]
fn a_visible_enemy_draws_shadow_body_icons_and_floaters() {
    let loaded = vec![None, Some(vec![true])];
    let bank = frame_bank(80, 73);
    let n = body_node();
    let mut e = fighter(0);
    e.battler.anim_frame = 0;
    e.hidden = false;
    e.on_screen = false;
    let ops = enemy::paint(&mut e, &n, 240, 299, Some(&bank), &loaded, 100, 50);
    assert_eq!(
        ops,
        vec![
            GlyphOp::SetClip(0, 0, 240, 299),
            GlyphOp::DrawShadow(140, 103),
            GlyphOp::DrawSprite(1, 0, 140, 106),
            GlyphOp::StatusIcons(140, 103),
            GlyphOp::Floaters(140, 106),
        ]
    );
    assert!(e.on_screen);

    // recoiling to the right shakes the body 3 pixels; a wide enemy gets an ellipse
    let mut wide_node = body_node();
    wide_node.layer = 2;
    e.recoil_timer = 3;
    e.recoil_dir = 4;
    let ops = enemy::paint(&mut e, &wide_node, 240, 299, Some(&bank), &loaded, 100, 50);
    assert_eq!(ops[1], GlyphOp::SetColor(2047807));
    assert_eq!(ops[2], GlyphOp::FillArc(148 + 3 - 11, 100, 22, 9, 0, 360));
    assert_eq!(ops[3], GlyphOp::DrawSprite(1, 0, 151, 106));
    assert_eq!(ops[4], GlyphOp::StatusIcons(148, 103));
}

#[test]
fn hidden_culled_and_shadowless_enemies() {
    let loaded = vec![None, Some(vec![true])];
    let bank = frame_bank(80, 73);
    let n = body_node();
    let mut e = fighter(0);
    e.battler.anim_frame = 0;
    assert!(e.hidden);
    assert!(enemy::paint(&mut e, &n, 240, 299, Some(&bank), &loaded, 100, 50).is_empty());
    assert!(e.on_screen);
    // far off to the left: only the floaters, and marked off screen
    let ops = enemy::paint(&mut e, &n, 240, 299, Some(&bank), &loaded, -100, 50);
    assert_eq!(ops, vec![GlyphOp::SetClip(0, 0, 240, 299), GlyphOp::Floaters(-60, 106)]);
    assert!(!e.on_screen);
    // kind 16 casts no shadow; without a frame bank there is no body
    e.hidden = false;
    e.kind = 16;
    let ops = enemy::paint(&mut e, &n, 240, 299, None, &loaded, 100, 50);
    assert_eq!(
        ops,
        vec![GlyphOp::SetClip(0, 0, 240, 299), GlyphOp::StatusIcons(140, 103), GlyphOp::Floaters(140, 106)]
    );
}

#[test]
fn a_reach_strike_floats_over_the_hero() {
    let mut hero = BattlerData::new();
    assert!(enemy::land_strike(Strike::Reach(soltia::floater::new(9, -1, 3)), &mut hero));
    assert_eq!(hero.floaters.len(), 1);
    assert_eq!(hero.floaters[0].data.kind, 9);
    assert_eq!(hero.floaters[0].data.value, 3);
    assert!(enemy::land_strike(Strike::Melee, &mut hero));
    assert!(!enemy::land_strike(Strike::Miss, &mut hero));
    assert!(!enemy::land_strike(
        Strike::Projectile { tile_x: 1, tile_y: 2, dir: 2, script: 0 },
        &mut hero
    ));
    assert_eq!(hero.floaters.len(), 1);
}

#[test]
fn a_new_enemy_starts_fresh_and_occupies_its_tile() {
    let mut m = open_field(8, 8);
    let mut arena = EntityArena::new();
    let other = stand(&mut arena, &mut m, 0, 0);
    let mut types = soltia::enemy_type::EnemyTypeState::new();
    let mut t = stats_for(1);
    t.ambush = true;
    t.size = 2;
    types.types = Some(vec![None, Some(t)]);
    let (id, e) = enemy::new_enemy(&mut arena, &mut m, &types, 48, 32, 5, 1);
    assert_eq!(id, other + 1);
    let n = *arena.node(id);
    assert_eq!((n.tile_x, n.tile_y, n.layer, n.half_w, n.half_h), (3, 2, 2, 8, 8));
    assert!(!n.off_grid_x && !n.off_grid_y);
    assert_eq!((e.home_tile_x, e.home_tile_y), (3, 2));
    assert_eq!(e.hp, 20);
    assert_eq!((e.attack_cooldown, e.hurt_cooldown), (3, 2));
    assert!(e.hidden);
    assert_eq!(e.summon_timer, -10);
    assert_eq!((e.kind, e.stat_row), (5, 1));
    let occ = m.occupancy.as_ref().unwrap();
    assert_eq!(occ[2][3], Some(id));
    assert_eq!(occ[2][4], Some(id));
    assert_eq!(occ[2][5], None);
    assert_eq!(occ[0][0], Some(other));
}
