//! The world-session state: the active map, the camera, the hero handle, the
//! queued state request and the story tables set up when the state is first
//! used.

use vstd::prelude::*;
use crate::entity::EntityId;
use crate::game_map::GameMapState;
use crate::text::string_of;
use crate::game_loop::{apply_difficulty_fps, set_fps, set_loading_fps, GameLoopState};
use crate::jvm::spec_java_div;

verus! {

broadcast use vstd::string::group_string_axioms;

/// The session state.
pub struct GameStateData {
    /// The active map (`None` before a game is started).
    pub map: Option<GameMapState>,
    /// Camera target, in pixels.
    pub cam_target_x: i32,
    pub cam_target_y: i32,
    /// Camera position, in pixels.
    pub cam_x: i32,
    pub cam_y: i32,
    /// The hero's entity (`None` before a game is started).
    pub hero: Option<EntityId>,
    /// The selected class (6 to 8).
    pub class_id: i8,
    /// The arguments of the queued state request.
    pub arg0: i8,
    pub arg1: i8,
    pub arg2: i8,
    /// The story map to load next.
    pub story_map_id: i8,
    /// How many times the game has been cleared.
    pub clear_count: i8,
    /// Bonus per clear count.
    pub clear_bonus_table: Vec<i8>,
    /// The save obfuscation key.
    pub save_key: Vec<i8>,
    /// Start map, tile x and tile y of each class, three bytes per class.
    pub class_start_table: Vec<i8>,
    /// The record-store names of the three save slots.
    pub save_slots: Vec<String>,
    /// The current screen id.
    pub screen: i32,
    /// The queued state request (0: none).
    pub next_state: i8,
    /// Hero state and facing to restore after a warp.
    pub pending_hero_state: i8,
    pub pending_hero_facing: i8,
    /// Story switches and flags.
    pub switches: Vec<i8>,
    pub flags: Vec<i8>,
    /// The starting flag layout of each class (three rows of fifteen).
    pub class_start_flags: Vec<Vec<bool>>,
}

/// The starting flag rows of the three classes.
pub open spec fn class_start_flags_spec() -> Seq<Seq<bool>> {
    seq![
        seq![true, true, true, true, true, true, false, false, false, false, false, false, false, false, false],
        seq![true, false, true, false, false, false, false, true, true, true, true, false, false, true, true],
        seq![true, true, true, true, false, false, false, false, false, false, false, false, false, false, false],
    ]
}

/// What the first use of the session state sets up: the tables, an empty
/// request queue and cleared switches and flags.
pub open spec fn initialized(s: GameStateData) -> bool {
    &&& s.clear_bonus_table@ == seq![60i8, 30, 10]
    &&& s.save_key@ == seq![5i8, 11, 8, 81, 3, 20]
    &&& s.class_start_table@ == seq![0i8, 22, 4, 60, 5, 36, 77, 10, 18]
    &&& s.save_slots@.len() == 3
    &&& s.save_slots@[0]@ == seq!['/', 'k']
    &&& s.save_slots@[1]@ == seq!['/', 's']
    &&& s.save_slots@[2]@ == seq!['/', 'w']
    &&& s.screen == 0
    &&& s.next_state == 0
    &&& s.pending_hero_state == 0
    &&& s.pending_hero_facing == 0
    &&& s.switches@ == Seq::new(128, |i: int| 0i8)
    &&& s.flags@ == Seq::new(128, |i: int| 0i8)
    &&& s.class_start_flags@.len() == 3
    &&& forall|c: int| 0 <= c < 3 ==> #[trigger] s.class_start_flags@[c]@ == class_start_flags_spec()[c]
}

fn bool_row(bits: &[bool]) -> (r: Vec<bool>)
    ensures
        r@ == bits@,
{
    let mut r: Vec<bool> = Vec::new();
    let mut i: usize = 0;
    while i < bits.len()
        invariant
            i <= bits@.len(),
            r@ == bits@.take(i as int),
        decreases bits@.len() - i,
    {
        r.push(bits[i]);
        i = i + 1;
        assert(r@ =~= bits@.take(i as int));
    }
    assert(bits@.take(bits@.len() as int) =~= bits@);
    r
}

fn zeros(n: usize) -> (r: Vec<i8>)
    ensures
        r@ == Seq::new(n as nat, |i: int| 0i8),
{
    let mut r: Vec<i8> = Vec::new();
    let mut i: usize = 0;
    while i < n
        invariant
            i <= n,
            r@ == Seq::new(i as nat, |j: int| 0i8),
        decreases n - i,
    {
        r.push(0);
        i = i + 1;
        assert(r@ =~= Seq::new(i as nat, |j: int| 0i8));
    }
    r
}

fn slot_name(second: char) -> (r: String)
    ensures
        r@ == seq!['/', second],
{
    let chars = ['/', second];
    let r = string_of(&chars);
    assert(chars@ =~= seq!['/', second]);
    r
}

/// The static initializers of the session state, run on its first use.
pub fn clinit_apply(s: &mut GameStateData)
    ensures
        initialized(*final(s)),
        final(s).map == old(s).map,
        final(s).hero == old(s).hero,
        final(s).cam_target_x == old(s).cam_target_x && final(s).cam_target_y == old(s).cam_target_y,
        final(s).cam_x == old(s).cam_x && final(s).cam_y == old(s).cam_y,
        final(s).class_id == old(s).class_id && final(s).story_map_id == old(s).story_map_id,
        final(s).arg0 == old(s).arg0 && final(s).arg1 == old(s).arg1 && final(s).arg2 == old(s).arg2,
        final(s).clear_count == old(s).clear_count,
{
    s.clear_bonus_table = vec![60, 30, 10];
    s.save_key = vec![5, 11, 8, 81, 3, 20];
    s.class_start_table = vec![0, 22, 4, 60, 5, 36, 77, 10, 18];
    let mut slots: Vec<String> = Vec::new();
    slots.push(slot_name('k'));
    slots.push(slot_name('s'));
    slots.push(slot_name('w'));
    s.save_slots = slots;
    s.screen = 0;
    s.next_state = 0;
    s.pending_hero_state = 0;
    s.pending_hero_facing = 0;
    s.switches = zeros(128);
    s.flags = zeros(128);
    let row0 = [true, true, true, true, true, true, false, false, false, false, false, false, false, false, false];
    let row1 = [true, false, true, false, false, false, false, true, true, true, true, false, false, true, true];
    let row2 = [true, true, true, true, false, false, false, false, false, false, false, false, false, false, false];
    let mut rows: Vec<Vec<bool>> = Vec::new();
    rows.push(bool_row(&row0));
    rows.push(bool_row(&row1));
    rows.push(bool_row(&row2));
    s.class_start_flags = rows;
    proof {
        assert(row0@ =~= class_start_flags_spec()[0]);
        assert(row1@ =~= class_start_flags_spec()[1]);
        assert(row2@ =~= class_start_flags_spec()[2]);
    }
}

impl GameStateData {
    /// The session state when it is first used: no map, no hero, the camera
    /// and the request arguments at 0, and the tables set up.
    pub fn new() -> (s: Self)
        ensures
            initialized(s),
            s.map is None && s.hero is None,
            s.cam_target_x == 0 && s.cam_target_y == 0 && s.cam_x == 0 && s.cam_y == 0,
            s.class_id == 0 && s.story_map_id == 0 && s.clear_count == 0,
            s.arg0 == 0 && s.arg1 == 0 && s.arg2 == 0,
    {
        let mut s = GameStateData {
            map: None,
            cam_target_x: 0,
            cam_target_y: 0,
            cam_x: 0,
            cam_y: 0,
            hero: None,
            class_id: 0,
            arg0: 0,
            arg1: 0,
            arg2: 0,
            story_map_id: 0,
            clear_count: 0,
            clear_bonus_table: Vec::new(),
            save_key: Vec::new(),
            class_start_table: Vec::new(),
            save_slots: Vec::new(),
            screen: 0,
            next_state: 0,
            pending_hero_state: 0,
            pending_hero_facing: 0,
            switches: Vec::new(),
            flags: Vec::new(),
            class_start_flags: Vec::new(),
        };
        clinit_apply(&mut s);
        s
    }
}

impl Default for GameStateData {
    fn default() -> (s: Self)
        ensures
            initialized(s),
            s.map is None && s.hero is None,
            s.cam_target_x == 0 && s.cam_target_y == 0 && s.cam_x == 0 && s.cam_y == 0,
            s.class_id == 0 && s.story_map_id == 0 && s.clear_count == 0,
            s.arg0 == 0 && s.arg1 == 0 && s.arg2 == 0,
    {
        GameStateData::new()
    }
}

/// The first use of the session state runs its initializers once: `done`
/// records that they ran.
pub fn class_init(s: &mut GameStateData, done: &mut bool)
    ensures
        *final(done),
        *old(done) ==> *final(s) == *old(s),
        !*old(done) ==> initialized(*final(s)),
{
    if *done {
        return;
    }
    *done = true;
    clinit_apply(s);
}

/// `set_screen(screen_id)`.
pub fn set_screen(s: &mut GameStateData, screen_id: i32)
    ensures
        *final(s) == (GameStateData { screen: screen_id, ..*old(s) }),
{
    s.screen = screen_id;
}

/// `request_state(state, a0, a1)`: queues `state` with arguments `a0`, `a1` and 0.
pub fn request_state_a0_a1(s: &mut GameStateData, state: i8, a0: i8, a1: i8)
    ensures
        *final(s) == (GameStateData { arg0: a0, arg1: a1, arg2: 0, next_state: state, ..*old(s) }),
{
    s.arg0 = a0;
    s.arg1 = a1;
    s.arg2 = 0;
    s.next_state = state;
}

/// The frame rate a set-screen request leaves on `gl`, by `arg1`: 0 runs at
/// `arg2` frames a second, 1 at the difficulty's rate, 2 at the loading rate;
/// other values (3 asks for the fast rate) leave it.
pub open spec fn fps_after(gl: GameLoopState, arg1: i8, arg2: i8) -> GameLoopState {
    if arg1 == 0 {
        GameLoopState { frame_target_ms: spec_java_div(1000, arg2 as i32), ..gl }
    } else if arg1 == 1 {
        GameLoopState { frame_target_ms: spec_java_div(1000, gl.frame_delay), ..gl }
    } else if arg1 == 2 {
        GameLoopState { frame_target_ms: 200, ..gl }
    } else {
        gl
    }
}

/// `process_state_request()`: takes the queued state request. A set-screen
/// request (state 2) shows screen `arg0` and sets the frame rate by `arg1`
/// (see [`fps_after`]); returns whether it asks for the fast frame rate
/// (`arg1 == 3`), which the game loop's host applies. Other requests are
/// dropped.
pub fn process_state_request(s: &mut GameStateData, game_loop: &mut GameLoopState) -> (fast_fps: bool)
    requires
        old(s).next_state == 2 && old(s).arg1 == 0 ==> old(s).arg2 != 0,
        old(s).next_state == 2 && old(s).arg1 == 1 ==> old(game_loop).frame_delay != 0,
    ensures
        old(s).next_state == 2 ==> {
            &&& *final(s) == (GameStateData { next_state: 0, screen: old(s).arg0 as i32, ..*old(s) })
            &&& *final(game_loop) == fps_after(*old(game_loop), old(s).arg1, old(s).arg2)
            &&& fast_fps == (old(s).arg1 == 3)
        },
        old(s).next_state != 2 ==> {
            &&& *final(s) == (GameStateData { next_state: 0, ..*old(s) })
            &&& *final(game_loop) == *old(game_loop)
            &&& !fast_fps
        },
{
    let state = s.next_state;
    s.next_state = 0;
    if state != 2 {
        return false;
    }
    let arg0 = s.arg0 as i32;
    set_screen(s, arg0);
    let arg1 = s.arg1;
    if arg1 == 0 {
        let arg2 = s.arg2 as i32;
        set_fps(game_loop, arg2);
    } else if arg1 == 1 {
        apply_difficulty_fps(game_loop);
    } else if arg1 == 2 {
        set_loading_fps(game_loop);
    } else if arg1 == 3 {
        return true;
    }
    false
}

} // verus!
