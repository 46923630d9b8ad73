use soltia::base_canvas::BaseCanvasState;
use soltia::battler::BattlerData;
use soltia::effect::{self, EffectData, FRAME_COUNTS};
use soltia::enemy::{self, EnemyData};
use soltia::enemy_type::EnemyTypeData;
use soltia::entity::{EntityArena, EntityKind};
use soltia::game_map::{self, GameMapClassState};
use soltia::game_screen::SpriteBlit;

fn loaded() -> Vec<Option<Vec<bool>>> {
    vec![None, Some(vec![true, true])]
}

/// One group of two parts, both from bank 1.
fn script(frames: i8) -> Vec<i8> {
    vec![frames, 2, 1, 2, 1, 0, -1, -2, 1, 1]
}

#[test]
fn a_script_effect_runs_for_its_first_byte() {
    let e = effect::effect_data_from_script(script(3));
    assert_eq!((e.frame_count, e.frame, e.type_), (3, 0, 100));
    assert!(e.frame_bank.is_none());
    assert!(!effect::base_is_finished(&e));
}

#[test]
fn built_in_effects_take_their_lifetime_from_the_table() {
    let mut arena = EntityArena::new();
    let (id, e) = effect::new_effect(&mut arena, Some(vec![true]), 40, 37, 4);
    assert_eq!(id, 0);
    assert_eq!(e.frame_count, FRAME_COUNTS[4]);
    assert_eq!(e.frame_count, 10);
    assert_eq!(e.frame_bank, Some(vec![true]));
    let n = arena.node(id);
    assert_eq!((n.tile_x, n.tile_y, n.off_grid_x, n.off_grid_y), (2, 2, true, true));
    assert_eq!((n.half_w, n.half_h, n.kind), (8, 9, EntityKind::Effect));
}

#[test]
fn script_effects_sit_on_the_tile_corner() {
    let mut arena = EntityArena::new();
    arena.spawn(8, 0);
    let (id, e) = effect::new_effect_from_script(&mut arena, 3, 5, script(2));
    assert_eq!(id, 1);
    let n = arena.node(id);
    assert_eq!((n.pixel_x, n.pixel_y, n.tile_x, n.tile_y), (48, 80, 3, 5));
    assert_eq!(e.sprite_script, Some(script(2)));
}

#[test]
fn painting_draws_the_frame_group_then_advances() {
    let mut arena = EntityArena::new();
    let (id, mut e) = effect::new_effect_from_script(&mut arena, 1, 1, script(1));
    let n = *arena.node(id);
    // screen position: origin + pixel + half-size = (124, 225)
    let (blits, finished) = effect::paint(&mut e, &n, &loaded(), 100, 200);
    assert_eq!(
        blits,
        vec![
            SpriteBlit { bank: 1, image: 0, x: 125, y: 227 },
            SpriteBlit { bank: 1, image: 1, x: 123, y: 223 },
        ]
    );
    assert!(finished);
    assert_eq!(e.frame, 1);
    // past the last frame nothing is drawn
    let (blits, finished) = effect::paint(&mut e, &n, &loaded(), 100, 200);
    assert!(blits.is_empty());
    assert!(finished);
    assert_eq!(e.frame, 2);
}

#[test]
fn only_the_sprite_types_draw() {
    let e = EffectData { frame_count: 4, frame: 0, type_: 2, frame_bank: None, sprite_script: Some(script(1)) };
    let mut e = e;
    let mut arena = EntityArena::new();
    let id = arena.spawn(8, 0);
    let n = *arena.node(id);
    let (blits, finished) = effect::paint(&mut e, &n, &loaded(), 0, 0);
    assert!(blits.is_empty());
    assert!(!finished);
    assert_eq!(e.frame, 1);
    // outside the frame range drawSprite draws nothing
    let past = EffectData { frame_count: 1, frame: 1, type_: 100, frame_bank: None, sprite_script: Some(script(1)) };
    assert!(effect::draw_sprite(&past, &loaded(), 0, 0).is_empty());
}

fn spawner(size: i8, stat_row: i8) -> EnemyData {
    EnemyData {
        battler: BattlerData::new(),
        kind: 0,
        stat_row,
        home_tile_x: 0,
        home_tile_y: 0,
        stats: EnemyTypeData {
            name: Vec::new(),
            size,
            elem_color: 0,
            element: 0,
            ai_type: 0,
            relentless: false,
            armored: false,
            summons_allies: false,
            ambush: false,
            summon_ward_element: 0,
            level: 1,
            max_hp: 5,
            attack: 1,
            defense: 1,
            evasion: 1,
            sight_range: 1,
            attack_delay: 1,
            hurt_delay: 1,
            exp_reward: 1,
            drop_table: Vec::new(),
            walk_frames: 1,
            attack_frames: 1,
            cast_frames: 1,
            die_frames: 1,
        },
        hp: 5,
        attack_charge: 0,
        attack_cooldown: 0,
        hurt_cooldown: 0,
        death_timer: 0,
        recoil_timer: 0,
        recoil_dir: 0,
        aggroed: false,
        hidden: false,
        status_flags: [false; 5],
        target: None,
        summon_timer: -10,
        on_screen: true,
    }
}

#[test]
fn enemies_spawn_their_effects_onto_the_map() {
    let mut class_state = GameMapClassState::new();
    let mut m = game_map::new_game_map(&mut class_state, &BaseCanvasState::new(), 1);
    let mut arena = EntityArena::new();
    let me = arena.spawn(8, 0);
    let mut n = *arena.node(me);
    n.tile_x = 4;
    n.tile_y = 6;
    arena.set_node(me, n);
    let scripts = vec![None, Some(script(5))];
    let e = spawner(1, 1);
    let (fx, data) = enemy::spawn_effect_at(&e, &mut m, &mut arena, &scripts, 2, 3);
    assert_eq!(fx, 1);
    assert_eq!(data.frame_count, 5);
    assert_eq!((arena.node(fx).tile_x, arena.node(fx).tile_y), (2, 3));
    assert_eq!(m.entities.head, Some(fx));
    let (boom, data) = enemy::death_effect(&e, &mut m, &mut arena, me, &scripts);
    assert_eq!(boom, 2);
    assert_eq!(data.sprite_script, Some(script(5)));
    assert_eq!((arena.node(boom).pixel_x, arena.node(boom).pixel_y), (64, 96));
}
