use soltia::base_canvas::BaseCanvasState;
use soltia::game_loop::GameLoopState;
use soltia::game_screen::{self, GameScreenState, SpriteBlit};

fn canvas(width: i32, height: i32) -> BaseCanvasState {
    let mut c = BaseCanvasState::new();
    c.width = width;
    c.height = height;
    c
}

#[test]
fn screen_geometry_from_canvas() {
    let mut s = GameScreenState::new();
    s.low_hp_blink = 4;
    s.message_ttl = 9;
    s.target_ttl = 2;
    s.fx_timer = 7;
    game_screen::construct(&mut s, &canvas(240, 320));
    assert_eq!(s.width, 240);
    assert_eq!(s.world_height, 299);
    assert_eq!(s.center_x, 112);
    assert_eq!(s.center_y, 149);
    assert_eq!(s.hud_slots, 27);
    assert_eq!(s.bar_width, 173);
    assert_eq!(s.exp_width, 234);
    assert!(s.redraw_all);
    assert_eq!((s.low_hp_blink, s.message_ttl, s.target_ttl), (0, 0, 0));
    assert_eq!(s.fx_timer, 7);
}

#[test]
fn screen_geometry_on_a_narrow_canvas_truncates_toward_zero() {
    let mut s = GameScreenState::new();
    game_screen::construct(&mut s, &canvas(60, 20));
    assert_eq!(s.world_height, -1);
    assert_eq!(s.center_y, 0);
    assert_eq!(s.hud_slots, -2);
    assert_eq!(s.center_x, 22);
}

#[test]
fn mark_redraw_sets_only_the_flag() {
    let mut s = GameScreenState::new();
    s.width = 5;
    game_screen::mark_redraw(&mut s);
    assert!(s.redraw_all);
    assert_eq!(s.width, 5);
}

#[test]
fn soft_keys_are_remapped_while_running() {
    let mut gl = GameLoopState::new();
    gl.instance = true;
    gl.stopped = false;
    let mut c = canvas(240, 320);
    assert_eq!(game_screen::key_pressed(&gl, &mut c, -6), Some(53));
    assert!(c.key_down);
    assert_eq!(game_screen::key_pressed(&gl, &mut c, -7), Some(-8));
    assert_eq!(game_screen::key_pressed(&gl, &mut c, 50), Some(50));
}

#[test]
fn keys_are_ignored_without_a_running_loop() {
    let mut gl = GameLoopState::new();
    gl.instance = false;
    let mut c = canvas(240, 320);
    assert_eq!(game_screen::key_pressed(&gl, &mut c, -6), None);
    assert!(!c.key_down);
    gl.instance = true;
    gl.stopped = true;
    assert_eq!(game_screen::key_pressed(&gl, &mut c, 53), None);
    assert!(!c.key_down);
}

fn banks() -> Vec<Option<Vec<bool>>> {
    vec![None, Some(vec![true, false, true]), Some(vec![true])]
}

#[test]
fn draw_frame_picks_the_frames_part() {
    // two frames: [dx, dy, bank, image]
    let frames: Vec<i8> = vec![2, 1, 2, 1, 0, -3, 4, 2, 0];
    let b = banks();
    assert_eq!(
        game_screen::draw_frame(&b, Some(&frames), 0, 10, 20),
        Some(SpriteBlit { bank: 1, image: 0, x: 11, y: 22 })
    );
    assert_eq!(
        game_screen::draw_frame(&b, Some(&frames), 1, 10, 20),
        Some(SpriteBlit { bank: 2, image: 0, x: 7, y: 24 })
    );
}

#[test]
fn draw_frame_draws_nothing_past_the_count_or_unloaded() {
    let b = banks();
    let frames: Vec<i8> = vec![2, 0, 0, 1, 1, 0, 0, 0, -1];
    assert_eq!(game_screen::draw_frame(&b, None, 0, 0, 0), None);
    assert_eq!(game_screen::draw_frame(&b, Some(&frames), 2, 0, 0), None);
    // image 1 of bank 1 is not loaded
    assert_eq!(game_screen::draw_frame(&b, Some(&frames), 0, 0, 0), None);
    // image -1 draws nothing, whatever the bank byte says
    assert_eq!(game_screen::draw_frame(&b, Some(&frames), 1, 0, 0), None);
}

#[test]
fn draw_frame_offsets_wrap_like_java_ints() {
    let b = banks();
    let frames: Vec<i8> = vec![1, 1, -1, 2, 0];
    assert_eq!(
        game_screen::draw_frame(&b, Some(&frames), 0, i32::MAX, i32::MIN),
        Some(SpriteBlit { bank: 2, image: 0, x: i32::MIN, y: i32::MAX })
    );
}

#[test]
fn draw_frame_group_walks_to_its_group() {
    let b = banks();
    let frames: Vec<i8> = vec![
        2, // groups
        1, 0, 0, 1, 0, // group 0: one part
        3, 1, 1, 1, 2, 2, 2, 1, 1, 3, 3, 2, 0, // group 1: three parts
    ];
    assert_eq!(
        game_screen::draw_frame_group(&b, Some(&frames), 0, 100, 50),
        vec![SpriteBlit { bank: 1, image: 0, x: 100, y: 50 }]
    );
    // the middle part (bank 1, image 1) is not loaded
    assert_eq!(
        game_screen::draw_frame_group(&b, Some(&frames), 1, 100, 50),
        vec![
            SpriteBlit { bank: 1, image: 2, x: 101, y: 51 },
            SpriteBlit { bank: 2, image: 0, x: 103, y: 53 },
        ]
    );
    assert!(game_screen::draw_frame_group(&b, Some(&frames), 2, 0, 0).is_empty());
    assert!(game_screen::draw_frame_group(&b, None, 0, 0, 0).is_empty());
}

#[test]
fn draw_frame_group_with_a_negative_index_draws_the_first_group() {
    let b = banks();
    let frames: Vec<i8> = vec![1, 1, 5, 6, 2, 0];
    assert_eq!(
        game_screen::draw_frame_group(&b, Some(&frames), -1, 0, 0),
        vec![SpriteBlit { bank: 2, image: 0, x: 5, y: 6 }]
    );
}
