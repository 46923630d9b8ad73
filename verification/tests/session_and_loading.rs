use soltia::app_config::AppConfigState;
use soltia::asset_cache::{item_resource_path, load_item_record};
use soltia::base_canvas::{self, BaseCanvasState};
use soltia::byte_util::ByteUtilState;
use soltia::enemy_type::{self, EnemyTypeState};
use soltia::game_loop::{self, GameLoopState};
use soltia::game_midlet::{self, ApplicationState};
use soltia::game_state::{self, GameStateData};

fn record(name: &str, types: i8, flags: i8, level: i8, hp: i16, drops: &[i8]) -> Vec<i8> {
    let mut body: Vec<i8> = vec![0, name.len() as i8];
    body.extend(name.bytes().map(|b| b as i8));
    body.push(types);
    body.push(flags);
    body.push(level);
    for v in [hp, 12, 3, 4] {
        body.push((v >> 8) as i8);
        body.push(v as i8);
    }
    body.push(5);
    body.push(6);
    body.push(7);
    body.push(0);
    body.push(99);
    body.push((drops.len() / 3) as i8);
    body.extend_from_slice(drops);
    let mut out = vec![(body.len() >> 8) as i8, body.len() as i8];
    out.extend(body);
    out
}

#[test]
fn enemy_template_record_decodes() {
    let mut blob: Vec<i8> = vec![2];
    blob.extend(record("slime", 0, 0, 1, 30, &[]));
    // size 1, colour 2, element 3, AI 1; summons allies with ward element 2; ambush
    blob.extend(record("bat", 0b0110_1101i8, 0b1000_0011u8 as i8, 9, 300, &[1, 2, 3, 4, 5, 6]));
    let mut s = EnemyTypeState::new();
    enemy_type::alloc_types(&mut s, 4);
    enemy_type::parse(&mut s, &blob, 1, 2);
    let types = s.types.as_ref().unwrap();
    assert!(types[0].is_none() && types[1].is_none() && types[3].is_none());
    let t = types[2].as_ref().unwrap();
    assert_eq!(t.name, "bat".encode_utf16().collect::<Vec<u16>>());
    assert_eq!((t.size, t.elem_color, t.element, t.ai_type), (1, 2, 3, 1));
    assert!(t.summons_allies && t.ambush && !t.armored && !t.relentless);
    assert_eq!(t.summon_ward_element, 2);
    assert_eq!(t.level, 9);
    assert_eq!(t.max_hp, 300);
    assert_eq!((t.attack, t.defense, t.evasion), (12, 3, 4));
    assert_eq!((t.sight_range, t.attack_delay, t.hurt_delay), (5, 6, 7));
    assert_eq!(t.exp_reward, 99);
    assert_eq!(t.drop_table, vec![1, 2, 3, 4, 5, 6]);
}

#[test]
fn enemy_template_sprite_counts_bind() {
    let mut blob: Vec<i8> = vec![1];
    blob.extend(record("imp", 0, 0, 1, 10, &[]));
    let mut s = EnemyTypeState::new();
    enemy_type::alloc_types(&mut s, 1);
    enemy_type::parse(&mut s, &blob, 0, 0);
    let mut frames: Vec<Option<Vec<i8>>> = vec![None; 12];
    frames[0] = Some(vec![4]);
    frames[4] = Some(vec![3]);
    frames[8] = Some(vec![2]);
    enemy_type::bind_sprites(&mut s, &frames, 0);
    let t = s.types.as_ref().unwrap()[0].as_ref().unwrap();
    assert_eq!((t.walk_frames, t.attack_frames, t.cast_frames), (4, 3, 2));

    let mut boss_frames: Vec<Option<Vec<i8>>> = vec![None; 16];
    boss_frames[0] = Some(vec![6]);
    boss_frames[8] = Some(vec![5]);
    enemy_type::bind_sprites_boss(&mut s, &boss_frames, 0);
    let t = s.types.as_ref().unwrap()[0].as_ref().unwrap();
    assert_eq!((t.walk_frames, t.attack_frames, t.cast_frames, t.die_frames), (6, -1, -1, 5));
}

#[test]
fn session_state_sets_up_its_tables() {
    let s = GameStateData::new();
    assert_eq!(s.clear_bonus_table, vec![60, 30, 10]);
    assert_eq!(s.save_key, vec![5, 11, 8, 81, 3, 20]);
    assert_eq!(s.class_start_table, vec![0, 22, 4, 60, 5, 36, 77, 10, 18]);
    assert_eq!(s.save_slots, vec!["/k".to_string(), "/s".to_string(), "/w".to_string()]);
    assert_eq!(s.switches.len(), 128);
    assert_eq!(s.flags.len(), 128);
    assert_eq!(s.class_start_flags.len(), 3);
    assert_eq!(s.class_start_flags[1].len(), 15);
    assert!(!s.class_start_flags[1][1] && s.class_start_flags[1][13]);
    assert!(s.map.is_none() && s.hero.is_none());
}

#[test]
fn class_init_runs_once() {
    let mut s = GameStateData::default();
    let mut done = false;
    s.screen = 4;
    s.switches[3] = 9;
    game_state::class_init(&mut s, &mut done);
    assert!(done);
    assert_eq!(s.screen, 0);
    assert_eq!(s.switches[3], 0);
    s.screen = 4;
    game_state::class_init(&mut s, &mut done);
    assert_eq!(s.screen, 4);
}

#[test]
fn state_requests_queue_their_arguments() {
    let mut s = GameStateData::new();
    game_state::request_state_a0_a1(&mut s, 2, 9, 3);
    assert_eq!((s.next_state, s.arg0, s.arg1, s.arg2), (2, 9, 3, 0));
    game_state::set_screen(&mut s, 7);
    assert_eq!(s.screen, 7);
}

#[test]
fn frame_timing() {
    let mut gl = GameLoopState::new();
    game_loop::set_fps(&mut gl, 8);
    assert_eq!(gl.frame_target_ms, 125);
    game_loop::set_loading_fps(&mut gl);
    assert_eq!(gl.frame_target_ms, 200);
    assert_eq!(game_loop::sleep_for(1000, 100, 1040), Some(60));
    assert_eq!(game_loop::sleep_for(1000, 100, 1100), None);
    game_loop::mark_frame_start(&mut gl, 500);
    assert_eq!(game_loop::throttle(&gl, false, 550), Some(150));
    assert_eq!(game_loop::throttle(&gl, true, 550), None);
    assert_eq!(game_loop::throttle(&gl, false, 900), None);
}

#[test]
fn canvas_geometry_and_loading() {
    let mut c = BaseCanvasState::new();
    base_canvas::construct(&mut c, 240);
    assert_eq!(c.half_w, 120);
    base_canvas::set_view_height(&mut c, 300, 320);
    assert_eq!((c.height, c.half_h), (300, 150));
    base_canvas::set_view_height(&mut c, 400, 320);
    assert_eq!((c.height, c.half_h), (320, 160));
    let mut gl = GameLoopState::new();
    base_canvas::begin_loading(&mut c, &mut gl, 500);
    assert_eq!((c.load_total, c.load_progress, c.load_phase), (500, 0, 0));
    let mut sleeps = 0;
    for _ in 0..12 {
        if base_canvas::yield_tick(&mut c) {
            sleeps += 1;
        }
    }
    assert_eq!(sleeps, 2);
    assert_eq!(c.load_progress, 12);
}

#[test]
fn number_width_counts_digits() {
    assert_eq!(base_canvas::number_width(0), 5);
    assert_eq!(base_canvas::number_width(7), 5);
    assert_eq!(base_canvas::number_width(123), 13);
    assert_eq!(base_canvas::number_width(-45), 9);
    assert_eq!(base_canvas::number_width(i32::MIN), 41);
}

#[test]
fn app_properties_read_back_what_was_written() {
    let mut s = AppConfigState::new();
    assert_eq!(s.get_app_property("HO-Demo"), None);
    s.set_app_property("HO-Demo", "x");
    s.set_app_property("HO-LangList", "en");
    s.set_app_property("HO-Demo", "y");
    assert_eq!(s.get_app_property("HO-Demo"), Some("y".to_string()));
    assert_eq!(s.get_app_property("HO-LangList"), Some("en".to_string()));
}

#[test]
fn seeded_byte_util_is_reproducible() {
    let mut a = ByteUtilState::seeded(5);
    let mut b = ByteUtilState::seeded(5);
    for _ in 0..50 {
        assert_eq!(
            soltia::byte_util::rand_range(&mut a, 0, 3),
            soltia::byte_util::rand_range(&mut b, 0, 3)
        );
    }
}

#[test]
fn item_records_are_found_by_path_and_frame() {
    assert_eq!(item_resource_path(5), "/itm/05");
    assert_eq!(item_resource_path(12), "/itm/12");
    assert_eq!(item_resource_path(127), "/itm/127");
    assert_eq!(item_resource_path(-3), "/itm/0-3");
    let data: Vec<i8> = vec![2, 10, 11, 3, 20, 21, 22, 0, 1, 30];
    assert_eq!(load_item_record(Some(data.clone()), 0), Some(vec![10, 11]));
    assert_eq!(load_item_record(Some(data.clone()), 1), Some(vec![20, 21, 22]));
    assert_eq!(load_item_record(Some(data.clone()), 2), Some(vec![]));
    assert_eq!(load_item_record(Some(data.clone()), 3), Some(vec![30]));
    assert_eq!(load_item_record(Some(data), -4), Some(vec![10, 11]));
    assert_eq!(load_item_record(None, 0), None);
}

#[test]
fn the_application_starts_the_loop_once() {
    let mut app = ApplicationState::new();
    game_midlet::construct(&mut app);
    assert!(app.instance && !app.started);
    let mut gl = GameLoopState::new();
    let mut class_done = false;
    assert!(game_midlet::start_app(&mut app, &mut gl, &mut class_done, false));
    assert!(app.started && app.display && class_done);
    assert!(gl.instance && gl.boot_pending && gl.sound_enabled);
    assert_eq!((gl.difficulty, gl.frame_delay, gl.frame_target_ms, gl.volume), (2, 14, 71, 10));
    gl.volume = 3;
    assert!(!game_midlet::start_app(&mut app, &mut gl, &mut class_done, true));
    assert_eq!(gl.volume, 3);
}

#[test]
fn a_frame_runs_unless_the_loop_is_stopped() {
    let mut gl = GameLoopState::new();
    let mut canvas = BaseCanvasState::new();
    canvas.key_down = true;
    canvas.pending_key = 35;
    assert!(game_loop::run_one_frame(&mut gl, &mut canvas, 1234));
    assert_eq!(gl.frame_start_ms, 1234);
    assert!(!canvas.key_down && canvas.pending_key == 0);
    gl.stopped = true;
    canvas.pending_key = 7;
    assert!(!game_loop::run_one_frame(&mut gl, &mut canvas, 2000));
    assert_eq!(gl.frame_start_ms, 1234);
    assert_eq!(canvas.pending_key, 7);
}

#[test]
fn a_set_screen_request_shows_the_screen_and_sets_the_frame_rate() {
    let mut s = GameStateData::new();
    let mut gl = GameLoopState::new();
    game_state::request_state_a0_a1(&mut s, 2, 9, 0);
    s.arg2 = 20;
    assert!(!game_state::process_state_request(&mut s, &mut gl));
    assert_eq!((s.screen, s.next_state, gl.frame_target_ms), (9, 0, 50));

    gl.frame_delay = 8;
    game_state::request_state_a0_a1(&mut s, 2, 4, 1);
    assert!(!game_state::process_state_request(&mut s, &mut gl));
    assert_eq!((s.screen, gl.frame_target_ms), (4, 125));

    game_state::request_state_a0_a1(&mut s, 2, 5, 2);
    game_state::process_state_request(&mut s, &mut gl);
    assert_eq!((s.screen, gl.frame_target_ms), (5, 200));

    game_state::request_state_a0_a1(&mut s, 2, 6, 3);
    assert!(game_state::process_state_request(&mut s, &mut gl));
    assert_eq!((s.screen, gl.frame_target_ms), (6, 200));
}

#[test]
fn other_state_requests_are_dropped() {
    let mut s = GameStateData::new();
    let mut gl = GameLoopState::new();
    game_state::set_screen(&mut s, 3);
    game_state::request_state_a0_a1(&mut s, 15, 1, 1);
    assert!(!game_state::process_state_request(&mut s, &mut gl));
    assert_eq!((s.screen, s.next_state, gl.frame_target_ms), (3, 0, 0));
}
