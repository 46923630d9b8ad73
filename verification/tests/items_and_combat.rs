use soltia::bitmap_font::GlyphOp;
use soltia::armor;
use soltia::battler::{BattlerData, StatusIconRef};
use soltia::boss::{self, BossData, BossKind, BossSubclass};
use soltia::geb_hand_left::GebHandLeftData;
use soltia::byte_util::ByteUtilState;
use soltia::directions::{REVERSE, ROTATE_CCW, ROTATE_CW};
use soltia::enemy::{self, EnemyData};
use soltia::enemy_type::EnemyTypeData;
use soltia::equipment::{self, Item};
use soltia::floater;

fn template(max_hp: i16, element: i8) -> EnemyTypeData {
    EnemyTypeData {
        name: Vec::new(),
        size: 1,
        elem_color: 0,
        element,
        ai_type: 0,
        relentless: false,
        armored: false,
        summons_allies: false,
        ambush: false,
        summon_ward_element: 0,
        level: 1,
        max_hp,
        attack: 5,
        defense: 2,
        evasion: 1,
        sight_range: 4,
        attack_delay: 3,
        hurt_delay: 2,
        exp_reward: 7,
        drop_table: Vec::new(),
        walk_frames: 0,
        attack_frames: 0,
        cast_frames: 0,
        die_frames: 0,
    }
}

fn enemy_with(hp: i16, max_hp: i16, element: i8) -> EnemyData {
    EnemyData {
        battler: BattlerData::new(),
        kind: 0,
        stat_row: 0,
        home_tile_x: 0,
        home_tile_y: 0,
        stats: template(max_hp, element),
        hp,
        attack_charge: 0,
        attack_cooldown: 0,
        hurt_cooldown: 0,
        death_timer: 0,
        recoil_timer: 0,
        recoil_dir: 0,
        aggroed: false,
        hidden: true,
        status_flags: [false; 5],
        target: None,
        summon_timer: -10,
        on_screen: false,
    }
}

#[test]
fn equip_stats_without_ranges_identify_outright() {
    let mut item = Item::new();
    let mut rng = ByteUtilState::seeded(7);
    let data: Vec<i8> = vec![-56, 12, 1, 0, 0, 0, 0, 0, 0, 0, 0, 0];
    assert_eq!(equipment::parse_equip_stats(&mut item, &mut rng, &data, 0, true), 12);
    assert_eq!(item.value, 200);
    assert_eq!(item.level_req, 12);
    assert!(item.needs_identify);
    assert!(item.identified);
    assert_eq!(item.enchant, [0, 0, 0, 0]);
}

#[test]
fn equip_stats_roll_enchants_within_their_ranges() {
    let mut item = Item::new();
    let mut rng = ByteUtilState::seeded(12345);
    // count 2; slot ranges 1..5, 0..0, 3..3, 0..0
    let data: Vec<i8> = vec![9, 1, 0, 2, 1, 5, 0, 0, 3, 3, 0, 0];
    assert_eq!(equipment::parse_equip_stats(&mut item, &mut rng, &data, 0, true), 12);
    assert!(!item.identified);
    assert_eq!(item.refine_level, 0);
    assert!((1..=5).contains(&item.enchant[0]));
    assert_eq!(item.enchant[1], 0);
    assert_eq!(item.enchant[2], 3);
    assert_eq!(item.enchant[3], 0);
}

#[test]
fn equip_stats_without_rolling_keep_the_enchants() {
    let mut item = Item::new();
    equipment::set_enchant(&mut item, 1, 2, 3, 4);
    let mut rng = ByteUtilState::seeded(1);
    let data: Vec<i8> = vec![0, 0, 0, 0, 1, 2, 1, 2, 1, 2, 1, 2, 0];
    assert_eq!(equipment::parse_record(&mut item, &mut rng, false, &data, 1), 13);
    assert_eq!(item.enchant, [1, 2, 3, 4]);
    assert!(!item.identified);
}

#[test]
fn roll_enchant_fills_only_free_slots() {
    let mut item = Item::new();
    equipment::set_enchant(&mut item, 7, 0, 0, 0);
    let mut rng = ByteUtilState::seeded(99);
    equipment::roll_enchant(&mut item, &mut rng, 1, &[1, 0, 0, 0], &[9, 0, 4, 0], 3);
    assert_eq!(item.enchant[0], 7);
    assert_eq!(item.enchant[1], 0);
    assert!((0..=4).contains(&item.enchant[2]));
    assert_eq!(item.enchant[3], 0);
    assert_eq!(item.refine_level, 3);
}

#[test]
fn enchant_rolls_follow_the_shared_generator() {
    for seed in [1i64, 7, 2024, 99999] {
        let mut item = Item::new();
        equipment::set_enchant(&mut item, 0, 0, 5, 0);
        let mins = [2i8, 0, 1, 1];
        let maxs = [6i8, 0, 3, 4];
        let mut rng = ByteUtilState::seeded(seed);
        equipment::roll_enchant(&mut item, &mut rng, 2, &mins, &maxs, 0);
        // the same draws by hand: slots 0..=3 until a free one with a range,
        // then a value from its range
        let mut mirror = ByteUtilState::seeded(seed);
        let mut expected = [0i8, 0, 5, 0];
        for _ in 0..2 {
            let slot = loop {
                let s = soltia::byte_util::rand_range(&mut mirror, 0, 3) as usize;
                if expected[s] == 0 && (mins[s] != 0 || maxs[s] != 0) {
                    break s;
                }
            };
            expected[slot] = soltia::byte_util::rand_range(&mut mirror, mins[slot] as i32, maxs[slot] as i32) as i8;
        }
        assert_eq!(item.enchant, expected);
        assert_eq!(rng.rng.next_int(), mirror.rng.next_int());
    }
}

#[test]
fn serialize_writes_the_equipment_bytes() {
    let mut item = Item::new();
    item.identified = true;
    item.refine_level = 2;
    item.attribute = 5;
    equipment::set_enchant(&mut item, 1, -2, 3, -4);
    let base: Vec<i8> = vec![10, 11, 12, 0, 0, 0, 0, 0, 0, 0, 99];
    let out = equipment::serialize(&item, base.clone());
    assert_eq!(out, vec![10, 11, 12, 1, 2, 1, -2, 3, -4, 0, 99]);
    let out = armor::serialize(&item, base);
    assert_eq!(out, vec![10, 11, 12, 1, 2, 1, -2, 3, -4, 5, 99]);
}

#[test]
fn armor_record_ends_with_the_attribute() {
    let mut item = Item::new();
    let mut rng = ByteUtilState::seeded(3);
    let data: Vec<i8> = vec![50, 3, 0, 0, 0, 0, 0, 0, 0, 0, 0, 0, 6];
    assert_eq!(armor::parse_record(&mut item, &mut rng, true, &data, 0), 13);
    assert_eq!(item.attribute, 6);
    assert_eq!(item.value, 50);
    assert_eq!(armor::PROC_STATUS[6], 3);
    assert_eq!(armor::PROC_CHANCE[0], 20);
}

#[test]
fn floaters_count_frames_and_finish() {
    let mut o = floater::new_default(1);
    assert_eq!(o.lifetime, 3);
    assert_eq!(o.data.value, 0);
    floater::advance_frame(&mut o);
    floater::advance_frame(&mut o);
    assert!(!o.finished);
    floater::advance_frame(&mut o);
    assert!(o.finished);
    assert_eq!(o.frame, 3);
}

#[test]
fn looping_floaters_never_finish() {
    let mut o = floater::new(7, -1, 42);
    for _ in 0..100 {
        floater::advance_frame(&mut o);
    }
    assert!(!o.finished);
    assert_eq!(o.frame, 100);
    assert_eq!(floater::default_lifetime(9), -1);
}

#[test]
fn floater_anchor_by_kind_and_frame() {
    let o = floater::new(1, 3, 0);
    assert_eq!(floater::frame_anchor(&o, 100, 50), Some((97, 43)));
    let o = floater::new(7, 4, 12);
    assert_eq!(floater::frame_anchor(&o, 100, 50), None);
    let o = floater::new(8, 8, 0);
    assert_eq!(floater::frame_anchor(&o, 100, 50), Some((100, 53)));
}

#[test]
fn painting_a_floater_draws_its_frame_then_counts_it() {
    let mut o = floater::new(6, 3, 0);
    o.frame = 1;
    assert_eq!(floater::paint(&mut o, 20, 30), vec![GlyphOp::DrawFloaterFrame(1, 20, 31)]);
    assert_eq!((o.frame, o.finished), (2, false));
    assert_eq!(floater::paint(&mut o, 20, 30), vec![GlyphOp::DrawFloaterFrame(2, 20, 27)]);
    assert_eq!((o.frame, o.finished), (3, true));
    // a damage number draws none of its own frames here
    let mut n = floater::new(7, 4, 12);
    assert!(floater::paint(&mut n, 0, 0).is_empty());
    assert_eq!(n.frame, 1);
    // positions wrap like Java ints
    let mut w = floater::new(1, 3, 0);
    assert_eq!(floater::paint(&mut w, i32::MIN, 0), vec![GlyphOp::DrawFloaterFrame(0, i32::MAX - 2, -7)]);
}

#[test]
fn damage_floats_the_number_and_kills() {
    let mut e = enemy_with(10, 10, 0);
    enemy::damage(&mut e, 4);
    assert_eq!(e.hp, 6);
    assert_eq!(e.battler.floaters.len(), 1);
    assert_eq!(e.battler.floaters[0].data.kind, 7);
    assert_eq!(e.battler.floaters[0].data.value, 4);
    assert_eq!(e.battler.state, 1);
    enemy::damage(&mut e, 6);
    assert_eq!(e.hp, 0);
    assert_eq!(e.battler.state, 5);
    assert_eq!(e.death_timer, 3);
    assert_eq!(e.battler.anim_frame, -1);
}

#[test]
fn heal_is_capped_at_the_maximum() {
    let mut e = enemy_with(3, 10, 0);
    enemy::heal(&mut e, 4);
    assert_eq!(e.hp, 7);
    enemy::heal(&mut e, 100);
    assert_eq!(e.hp, 10);
}

#[test]
fn slay_spares_the_dying() {
    let mut e = enemy_with(10, 10, 0);
    enemy::slay(&mut e, 0);
    assert_eq!(e.hp, 0);
    assert_eq!(e.battler.state, 5);
    assert!(!e.hidden);
    let before = e.battler.floaters.len();
    enemy::slay(&mut e, 0);
    assert_eq!(e.battler.floaters.len(), before);
    assert_eq!(e.hp, 0);
}

#[test]
fn guardian_hits_scale_by_element_and_unfreeze() {
    let mut e = enemy_with(100, 100, 3);
    e.status_flags[0] = true;
    e.battler.statuses.push(StatusIconRef { kind: 2 });
    e.battler.statuses.push(StatusIconRef { kind: 0 });
    enemy::take_guardian_hit(&mut e, 20, 1);
    // element 1 against 3: 13/10
    assert_eq!(e.hp, 100 - 26);
    assert!(e.aggroed && !e.hidden);
    assert!(!e.status_flags[0]);
    assert_eq!(e.battler.statuses.len(), 1);
    assert_eq!(e.battler.statuses[0].kind, 2);
    assert_eq!(e.battler.floaters.len(), 2);
    assert_eq!(e.battler.floaters[1].data.kind, 1);
    assert_eq!((e.recoil_timer, e.recoil_dir), (4, 4));
    enemy::take_guardian_hit(&mut e, -5, 2);
    assert_eq!(e.hp, 74);
}

#[test]
fn boss_guardian_hit_reports_a_lethal_blow() {
    let mut b = BossData {
        enemy: enemy_with(5, 50, 2),
        hero_dist_x: 0,
        hero_dist_y: 0,
        subclass: BossSubclass::GebHandLeft(GebHandLeftData { ticks_since_hit: 0 }),
    };
    assert_eq!(b.subclass.kind(), BossKind::GebHandLeft);
    assert!(boss::take_guardian_hit(&mut b, 10, 0));
    assert_eq!(b.enemy.hp, -5);
    assert_eq!(b.enemy.battler.state, 5);
    assert_eq!(b.enemy.battler.anim_frame, 0);
    assert!(!boss::take_guardian_hit(&mut b, 10, 0));
    assert_eq!(b.enemy.hp, -5);
    assert!(!b.enemy.aggroed);
}

#[test]
fn boss_kinds() {
    assert_eq!(BossSubclass::Base.kind(), BossKind::Base);
    assert_eq!(BossSubclass::RockyBoss.kind(), BossKind::RockyBoss);
    assert_eq!(BossSubclass::GebCore.kind(), BossKind::GebCore);
    assert_eq!(BossSubclass::GebHead.kind(), BossKind::GebHead);
    assert_eq!(BossSubclass::GebHandRight.kind(), BossKind::GebHandRight);
}

#[test]
fn rotations_undo_each_other() {
    for f in 0..5usize {
        assert_eq!(ROTATE_CCW[ROTATE_CW[f] as usize] as usize, f);
        assert_eq!(ROTATE_CW[ROTATE_CW[f] as usize], REVERSE[f]);
        assert_eq!(REVERSE[REVERSE[f] as usize] as usize, f);
    }
}

#[test]
fn enemies_target_the_hero_within_range() {
    let mut arena = soltia::entity::EntityArena::new();
    let me = arena.spawn(8, 0);
    let hero = arena.spawn(8, 0);
    let mut n = *arena.node(hero);
    n.tile_x = 9;
    n.tile_y = 2;
    arena.set_node(hero, n);
    let mut e = enemy_with(10, 10, 0);
    e.stats.sight_range = 4;
    assert_eq!(enemy::pick_target(&e, &arena, me, hero), None);
    e.aggroed = true;
    assert_eq!(enemy::pick_target(&e, &arena, me, hero), None);
    n.tile_x = 8;
    arena.set_node(hero, n);
    assert_eq!(enemy::pick_target(&e, &arena, me, hero), Some(hero));
    e.stats.relentless = true;
    n.tile_x = 99;
    arena.set_node(hero, n);
    assert_eq!(enemy::pick_target(&e, &arena, me, hero), Some(hero));
}

#[test]
fn attacks_and_idling_arm_the_cooldowns() {
    let mut e = enemy_with(10, 10, 0);
    e.stats.attack_delay = 3;
    e.stats.hurt_delay = 2;
    e.attack_charge = 4;
    enemy::begin_attack(&mut e);
    assert!(!e.hidden);
    assert_eq!((e.attack_cooldown, e.attack_charge, e.hurt_cooldown), (7, 0, 3));
    assert_eq!((e.battler.state, e.battler.anim_frame), (3, 0));

    e.status_flags[1] = true;
    e.attack_charge = 1;
    let mut rng = ByteUtilState::seeded(11);
    enemy::enter_idle(&mut e, &mut rng, false);
    assert_eq!((e.attack_cooldown, e.attack_charge, e.hurt_cooldown), (4, 0, 5));
    assert_eq!((e.battler.state, e.battler.anim_frame), (1, 0));

    let mut check = ByteUtilState::seeded(11);
    let r = soltia::byte_util::rand_range(&mut check, 1, 7);
    enemy::enter_idle(&mut e, &mut rng, true);
    assert_eq!(e.hurt_cooldown as i32, (5 * r) / 10);
}

#[test]
fn wandering_steps_or_idles_then_turns() {
    let mut e = enemy_with(10, 10, 0);
    let mut rng = soltia::byte_util::JavaRandom::new(3);
    let mut mirror = soltia::byte_util::JavaRandom::new(3);
    let mut bu = ByteUtilState::seeded(5);
    for _ in 0..20 {
        let first = mirror.next_int();
        let second = mirror.next_int();
        enemy::wander(&mut e, &mut rng, &mut bu);
        if first > 0 {
            assert_eq!(e.battler.state, 2);
        } else {
            assert_eq!(e.battler.state, 1);
        }
        assert_eq!(e.battler.facing as i32, (second & 255) % 4 + 1);
        assert!((1..=4).contains(&e.battler.facing));
    }
}

#[test]
fn death_rolls_loot_money_and_experience() {
    let mut e = enemy_with(0, 10, 0);
    e.stats.level = 5;
    e.stats.drop_table = vec![1, 2, 1, 3, 4, 100, 7, 8, 100];
    let mut bu = ByteUtilState::seeded(77);
    let mut mirror = ByteUtilState::seeded(77);
    let roll = soltia::byte_util::rand_range(&mut mirror, 1, 150);
    let mut left = roll;
    let mut expect_drop = None;
    for entry in [(1i8, 2i8, 1i8), (3, 4, 100), (7, 8, 100)] {
        left -= entry.2 as i32;
        if left <= 0 {
            if entry.2 == 1 {
                if soltia::byte_util::rand_range(&mut mirror, 1, 100) <= 20 {
                    expect_drop = Some((entry.0, entry.1));
                    break;
                }
            } else {
                expect_drop = Some((entry.0, entry.1));
                break;
            }
        }
    }
    let money = soltia::byte_util::rand_range(&mut mirror, 1, 100) <= 60;
    let rare = soltia::byte_util::rand_range(&mut mirror, 1, 100) <= 20 + (5 - 3);
    let (mut map, mut arena, me, fx) = death_scene();
    let (out, (boom, _)) = enemy::die(&mut e, &mut bu, 3, &mut map, &mut arena, me, &fx);
    assert_eq!(boom, 1);
    assert_eq!(map.entities.head, Some(boom));
    assert_eq!(e.battler.state, 6);
    assert!(out.respawn);
    assert_eq!(out.drop, expect_drop);
    assert!(out.drop.is_some());
    assert_eq!(out.money, money);
    assert_eq!(out.money_value, 15);
    assert_eq!(out.rare_item, rare);
    assert_eq!(out.exp_gain, 55);
    assert_eq!(
        soltia::byte_util::rand_range(&mut bu, 0, 1000),
        soltia::byte_util::rand_range(&mut mirror, 0, 1000)
    );
}

/// A map with one entity and the death-effect scripts of sizes 0 to 2.
fn death_scene() -> (
    soltia::game_map::GameMapState,
    soltia::entity::EntityArena,
    soltia::entity::EntityId,
    Vec<Option<Vec<i8>>>,
) {
    let mut class_state = soltia::game_map::GameMapClassState::new();
    let map = soltia::game_map::new_game_map(&mut class_state, &soltia::base_canvas::BaseCanvasState::new(), 1);
    let mut arena = soltia::entity::EntityArena::new();
    let me = arena.spawn(8, 0);
    let fx = vec![Some(vec![4, 0]), Some(vec![6, 0]), Some(vec![8, 0])];
    (map, arena, me, fx)
}

#[test]
fn experience_shrinks_with_the_level_gap() {
    let mut e = enemy_with(0, 10, 0);
    e.stats.level = 5;
    e.stats.elem_color = 2;
    let mut bu = ByteUtilState::seeded(1);
    let (mut map, mut arena, me, fx) = death_scene();
    let (out, _) = enemy::die(&mut e, &mut bu, 20, &mut map, &mut arena, me, &fx);
    assert!(!out.respawn);
    assert_eq!(out.drop, None);
    assert_eq!(out.exp_gain, 12);
    let mut e = enemy_with(0, 10, 0);
    e.stats.level = 10;
    let (out, _) = enemy::die(&mut e, &mut bu, 1, &mut map, &mut arena, me, &fx);
    assert_eq!(out.exp_gain, 130);
}
