use soltia::bitmap_font::GlyphOp;
use soltia::base_canvas::BaseCanvasState;
use soltia::battler::{self, BattlerData};
use soltia::boss::{self, BossData, BossSubclass};
use soltia::geb_hand_left::GebHandLeftData;
use soltia::byte_util::{ByteUtilState, JavaRandom};
use soltia::enemy::{EnemyData, Strike};
use soltia::enemy_type::EnemyTypeData;
use soltia::entity::{EntityArena, EntityId};
use soltia::game_map::{self, GameMapClassState, GameMapState};
use soltia::geb_hand_left;

fn boss_stats() -> EnemyTypeData {
    EnemyTypeData {
        name: Vec::new(),
        size: 2,
        elem_color: 2,
        element: 1,
        ai_type: 0,
        relentless: true,
        armored: true,
        summons_allies: false,
        ambush: false,
        summon_ward_element: 0,
        level: 20,
        max_hp: 900,
        attack: 40,
        defense: 20,
        evasion: 0,
        sight_range: 10,
        attack_delay: 2,
        hurt_delay: 1,
        exp_reward: 0,
        drop_table: Vec::new(),
        walk_frames: 4,
        attack_frames: 4,
        cast_frames: 9,
        die_frames: 3,
    }
}

fn boss_of(subclass: BossSubclass) -> BossData {
    BossData {
        enemy: EnemyData {
            battler: BattlerData::new(),
            kind: 0,
            stat_row: 40,
            home_tile_x: 0,
            home_tile_y: 0,
            stats: boss_stats(),
            hp: 900,
            attack_charge: 0,
            attack_cooldown: 0,
            hurt_cooldown: 0,
            death_timer: 0,
            recoil_timer: 0,
            recoil_dir: 0,
            aggroed: true,
            hidden: false,
            status_flags: [false; 5],
            target: None,
            summon_timer: -10,
            on_screen: true,
        },
        hero_dist_x: 0,
        hero_dist_y: 0,
        subclass,
    }
}

fn hand() -> BossData {
    boss_of(BossSubclass::GebHandLeft(GebHandLeftData { ticks_since_hit: 0 }))
}

fn ticks(b: &BossData) -> i8 {
    match &b.subclass {
        BossSubclass::GebHandLeft(d) => d.ticks_since_hit,
        _ => panic!("not the left hand"),
    }
}

fn bare_map() -> GameMapState {
    let mut class_state = GameMapClassState::new();
    game_map::new_game_map(&mut class_state, &BaseCanvasState::new(), 1)
}

fn grid_map(w: i8, h: i8) -> GameMapState {
    let mut class_state = GameMapClassState::new();
    let mut m = game_map::new_game_map(&mut class_state, &BaseCanvasState::new(), 1);
    let mut data: Vec<i8> = vec![3, w, h];
    data.extend(std::iter::repeat(0i8).take((w as usize) * (h as usize)));
    let _ = game_map::load(&mut m, &mut class_state, &data);
    m
}

/// An entity whose pixel position is tile `(x, y)` plus `(dx, dy)` pixels.
fn at(arena: &mut EntityArena, x: i8, y: i8, dy: i16) -> EntityId {
    let id = arena.spawn(8, 0);
    let mut n = *arena.node(id);
    n.pixel_x = (x as i16) * 16;
    n.pixel_y = (y as i16) * 16 + dy;
    n.tile_x = x;
    n.tile_y = y;
    n.off_grid_y = dy % 16 != 0;
    arena.set_node(id, n);
    id
}

#[test]
fn the_hand_slams_a_lined_up_hero() {
    let mut arena = EntityArena::new();
    let me = at(&mut arena, 2, 8, 0);
    let hero = at(&mut arena, 4, 6, 0);
    let mut b = hand();
    geb_hand_left::try_attack(&mut b.enemy, &arena, me, hero);
    assert_eq!((b.enemy.battler.state, b.enemy.battler.anim_frame), (3, 0));
}

#[test]
fn the_hand_slides_toward_the_heros_row() {
    let mut arena = EntityArena::new();
    let me = at(&mut arena, 2, 8, 0);
    let below = at(&mut arena, 4, 11, 0);
    let above = at(&mut arena, 4, 1, 0);
    let far = at(&mut arena, 9, 6, 0);
    let mut b = hand();
    geb_hand_left::try_attack(&mut b.enemy, &arena, me, below);
    assert_eq!((b.enemy.battler.state, b.enemy.battler.facing, b.enemy.battler.move_dir), (2, 2, 2));
    let mut b = hand();
    geb_hand_left::try_attack(&mut b.enemy, &arena, me, above);
    assert_eq!((b.enemy.battler.state, b.enemy.battler.facing), (2, 1));
    let mut b = hand();
    b.enemy.battler.state = 2;
    geb_hand_left::try_attack(&mut b.enemy, &arena, me, far);
    assert_eq!((b.enemy.battler.state, b.enemy.battler.facing), (1, 2));
    // still cooling down: it holds
    let mut b = hand();
    b.enemy.attack_cooldown = 1;
    b.enemy.battler.facing = 3;
    geb_hand_left::try_attack(&mut b.enemy, &arena, me, below);
    assert_eq!((b.enemy.battler.state, b.enemy.battler.facing), (1, 3));
}

#[test]
fn the_slam_shakes_the_camera_and_lands_in_its_box() {
    let mut arena = EntityArena::new();
    let me = at(&mut arena, 2, 8, 0);
    let inside = at(&mut arena, 5, 6, 0);
    let outside = at(&mut arena, 1, 6, 0);
    let mut m = bare_map();
    let mut b = hand();
    b.subclass = BossSubclass::GebHandLeft(GebHandLeftData { ticks_since_hit: 50 });
    b.enemy.stats.attack_delay = 0;
    b.enemy.battler.anim_frame = 7;
    assert!(matches!(geb_hand_left::resolve_attack(&mut b, &mut m, &arena, me, inside), Strike::Miss));
    assert_eq!((m.camera_shift_x, m.camera_shift_y), (-3, -1));
    b.enemy.battler.anim_frame = 5;
    assert!(matches!(geb_hand_left::resolve_attack(&mut b, &mut m, &arena, me, outside), Strike::Miss));
    assert_eq!(ticks(&b), 50);
    assert!(matches!(geb_hand_left::resolve_attack(&mut b, &mut m, &arena, me, inside), Strike::Melee));
    assert_eq!(ticks(&b), 0);
    assert_eq!(b.enemy.stats.attack_delay, 2);
}

#[test]
fn the_core_never_attacks() {
    let m = grid_map(8, 8);
    let mut arena = EntityArena::new();
    let me = at(&mut arena, 2, 2, 0);
    let hero = at(&mut arena, 3, 2, 0);
    let mut b = boss_of(BossSubclass::GebCore);
    let mut rng = JavaRandom::new(3);
    let mut bu = ByteUtilState::seeded(3);
    boss::try_attack(&mut b, &m, &arena, me, hero, &mut rng, &mut bu);
    assert_eq!((b.enemy.battler.state, b.enemy.target), (1, None));
}

#[test]
fn a_boss_leaves_the_map_when_its_death_timer_runs_out() {
    let m = grid_map(8, 8);
    let mut arena = EntityArena::new();
    let me = at(&mut arena, 2, 2, 0);
    let hero = at(&mut arena, 5, 5, 0);
    let mut b = boss_of(BossSubclass::GebCore);
    b.enemy.battler.state = 5;
    b.enemy.death_timer = 1;
    let mut rng = JavaRandom::new(3);
    let mut bu = ByteUtilState::seeded(3);
    assert!(!boss::update_ai_base(&mut b, &m, &arena, me, hero, &mut rng, &mut bu));
    assert_eq!(b.enemy.death_timer, 0);
    assert!(boss::update_ai_base(&mut b, &m, &arena, me, hero, &mut rng, &mut bu));
    // no loot, no corpse state: it simply leaves
    assert_eq!(b.enemy.battler.state, 5);
}

#[test]
fn the_abstract_boss_attacks_like_an_enemy() {
    let mut m = grid_map(8, 8);
    let mut arena = EntityArena::new();
    let me = at(&mut arena, 2, 2, 0);
    let hero = at(&mut arena, 3, 2, 0);
    for id in [me, hero] {
        battler::set_occupancy(&mut m, &arena, id);
    }
    let mut b = boss_of(BossSubclass::Base);
    b.enemy.battler.facing = 4;
    let mut rng = JavaRandom::new(3);
    let mut bu = ByteUtilState::seeded(3);
    let (despawn, strike) = boss::update_base(&mut b, &mut m, &arena, me, hero, &mut rng, &mut bu);
    assert!(!despawn);
    assert!(matches!(strike, Strike::Miss));
    assert_eq!((b.hero_dist_x, b.hero_dist_y), (1, 0));
    // the attack began this tick; animate counted nothing down in state 3
    assert_eq!((b.enemy.battler.state, b.enemy.battler.anim_frame), (3, 0));
}

#[test]
fn the_hand_update_slides_and_drops_its_delay_after_a_long_wait() {
    let mut m = bare_map();
    let mut arena = EntityArena::new();
    let me = at(&mut arena, 2, 8, 0);
    let hero = at(&mut arena, 4, 11, 0);
    let mut b = hand();
    b.subclass = BossSubclass::GebHandLeft(GebHandLeftData { ticks_since_hit: 100 });
    let mut rng = JavaRandom::new(3);
    let mut bu = ByteUtilState::seeded(3);
    let (despawn, strike) = geb_hand_left::update(&mut b, &mut m, &mut arena, me, hero, &mut rng, &mut bu);
    assert!(!despawn);
    assert!(matches!(strike, Strike::Miss));
    assert_eq!(ticks(&b), 101);
    assert_eq!(b.enemy.stats.attack_delay, 0);
    assert_eq!((b.enemy.battler.state, b.enemy.battler.facing), (2, 2));
    let n = arena.node(me);
    assert_eq!((n.pixel_y, n.tile_y, n.off_grid_y), (136, 8, true));
}

#[test]
fn bosses_arm_their_death_timers() {
    let mut core = boss_of(BossSubclass::GebCore);
    boss::on_death(&mut core);
    assert_eq!(core.enemy.death_timer, 16);
    let mut h = hand();
    h.enemy.death_timer = 9;
    boss::on_death(&mut h);
    assert_eq!(h.enemy.death_timer, 0);
    let mut base = boss_of(BossSubclass::Base);
    base.enemy.death_timer = 4;
    boss::on_death(&mut base);
    assert_eq!(base.enemy.death_timer, 4);
}

fn boss_bank() -> Vec<Option<Vec<i8>>> {
    let mut bank: Vec<Option<Vec<i8>>> = vec![None; 700];
    bank[641] = Some(vec![1, 1, 0, 0, 1, 0]);
    bank[640] = Some(vec![1, 1, 2, 0, 1, 0]);
    bank
}

#[test]
fn a_boss_draws_its_frame_group_with_no_shadow() {
    let loaded = vec![None, Some(vec![true])];
    let bank = boss_bank();
    let mut n = soltia::entity::EntityNode::new();
    n.pixel_x = 32;
    n.pixel_y = 48;
    n.half_w = 8;
    n.half_h = 8;
    let mut b = boss_of(BossSubclass::Base);
    b.enemy.battler.anim_frame = 0;
    let ops = boss::paint(&mut b, &n, 240, 299, &bank, &loaded, 100, 50);
    assert_eq!(
        ops,
        vec![
            GlyphOp::SetClip(0, 0, 240, 299),
            GlyphOp::DrawSprite(1, 0, 140, 106),
            GlyphOp::StatusIcons(140, 100),
            GlyphOp::Floaters(140, 106),
        ]
    );
    // attacking has no frames loaded here: the standing group stands in
    b.enemy.battler.state = 3;
    let ops = boss::paint(&mut b, &n, 240, 299, &bank, &loaded, 100, 50);
    assert_eq!(ops[1], GlyphOp::DrawSprite(1, 0, 140, 106));
}

#[test]
fn the_left_hand_draws_facing_up_and_higher() {
    let loaded = vec![None, Some(vec![true])];
    let bank = boss_bank();
    let mut n = soltia::entity::EntityNode::new();
    n.pixel_x = 32;
    n.pixel_y = 48;
    n.half_w = 8;
    n.half_h = 8;
    let mut b = hand();
    b.enemy.battler.anim_frame = 0;
    let ops = boss::paint(&mut b, &n, 240, 299, &bank, &loaded, 100, 50);
    assert_eq!(ops[1], GlyphOp::DrawSprite(1, 0, 142, 26));
    assert_eq!(b.enemy.battler.move_dir, 2);
}

#[test]
fn a_new_boss_stands_on_its_tile_and_stamps_both_layers() {
    let mut m = grid_map(10, 10);
    let mut arena = EntityArena::new();
    let mut types = soltia::enemy_type::EnemyTypeState::new();
    let mut t = boss_stats();
    t.size = 1;
    types.types = Some(vec![Some(t)]);
    let (id, b) = boss::new_boss(&mut arena, &mut m, &types, 2, 3, 7, 0, 3);
    assert_eq!(id, 0);
    let n = *arena.node(id);
    assert_eq!((n.pixel_x, n.pixel_y), (32, 48));
    assert_eq!((n.tile_x, n.tile_y, n.layer), (2, 3, 3));
    assert_eq!((b.enemy.home_tile_x, b.enemy.home_tile_y), (2, 3));
    assert_eq!((b.enemy.kind, b.enemy.stat_row), (7, 0));
    assert_eq!(b.enemy.hp, boss_stats().max_hp);
    assert_eq!((b.hero_dist_x, b.hero_dist_y), (0, 0));
    assert!(matches!(b.subclass, BossSubclass::Base));
    let occ = m.occupancy.as_ref().unwrap();
    assert_eq!(occ[3][2], Some(id));
    assert_eq!(occ[3][4], Some(id));
    assert_eq!(occ[3][5], None);
}
