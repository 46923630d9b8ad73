//! The game loop's settings and frame pacing: difficulty-driven frame rate, the
//! loading frame rate, and how long each frame sleeps.

use vstd::prelude::*;
use crate::jvm::{java_div, spec_java_div};

verus! {

/// The loop's settings and pacing state.
pub struct GameLoopState {
    /// A display is attached.
    pub display: bool,
    /// A screen is shown.
    pub current: bool,
    /// The game screen exists.
    pub game_screen: bool,
    /// The frame delay for the current difficulty.
    pub frame_delay: i32,
    /// Target milliseconds per frame (`1000 / fps`).
    pub frame_target_ms: i32,
    /// Sound volume.
    pub volume: i32,
    /// Sound is on.
    pub sound_enabled: bool,
    /// A character has been created.
    pub has_created_character: bool,
    /// Dialogue text advances by itself.
    pub auto_text_advance: bool,
    /// The camera follows the hero.
    pub camera_follow: bool,
    /// Difficulty 0..3, indexing `frame_delay_table`.
    pub difficulty: i8,
    /// Progress flags.
    pub progress_flags: i8,
    /// Progress data.
    pub progress_data: i32,
    /// When the current frame started, in milliseconds.
    pub frame_start_ms: i64,
    /// The loop has been stopped.
    pub stopped: bool,
    /// The next run boots the title screen.
    pub boot_pending: bool,
    /// The singleton exists.
    pub instance: bool,
    /// Frame delay per difficulty: 8, 10, 14, 18.
    pub frame_delay_table: Vec<i32>,
    /// The frame monitor exists.
    pub lock: bool,
}

/// The class-load frame delay table.
pub open spec fn frame_delay_table_spec() -> Seq<i32> {
    seq![8i32, 10i32, 14i32, 18i32]
}

impl GameLoopState {
    /// The class-load state: every field at its default, the frame delay table
    /// `{8, 10, 14, 18}` and the monitor present.
    pub fn new() -> (s: Self)
        ensures
            s.frame_delay_table@ == frame_delay_table_spec(),
            s.lock,
            !s.display && !s.current && !s.game_screen && !s.instance,
            s.frame_delay == 0 && s.frame_target_ms == 0 && s.volume == 0,
            !s.sound_enabled && !s.has_created_character && !s.auto_text_advance,
            !s.camera_follow && s.difficulty == 0 && s.progress_flags == 0,
            s.progress_data == 0 && s.frame_start_ms == 0 && !s.stopped && !s.boot_pending,
    {
        let mut s = GameLoopState {
            display: false,
            current: false,
            game_screen: false,
            frame_delay: 0,
            frame_target_ms: 0,
            volume: 0,
            sound_enabled: false,
            has_created_character: false,
            auto_text_advance: false,
            camera_follow: false,
            difficulty: 0,
            progress_flags: 0,
            progress_data: 0,
            frame_start_ms: 0,
            stopped: false,
            boot_pending: false,
            instance: false,
            frame_delay_table: Vec::new(),
            lock: false,
        };
        clinit_apply(&mut s);
        s
    }
}

impl Default for GameLoopState {
    fn default() -> (s: Self)
        ensures
            s.frame_delay_table@ == frame_delay_table_spec(),
            s.lock,
    {
        GameLoopState::new()
    }
}

/// The class initializer: the frame delay table and the monitor.
pub fn clinit_apply(s: &mut GameLoopState)
    ensures
        *final(s) == (GameLoopState { frame_delay_table: final(s).frame_delay_table, lock: true, ..*old(s) }),
        final(s).frame_delay_table@ == frame_delay_table_spec(),
{
    let mut t: Vec<i32> = Vec::new();
    t.push(8);
    t.push(10);
    t.push(14);
    t.push(18);
    s.frame_delay_table = t;
    s.lock = true;
    assert(s.frame_delay_table@ =~= frame_delay_table_spec());
}

/// The singleton constructor: volume 10, sound on unless the full version,
/// camera follows, difficulty 2 with its frame delay and rate, boot pending.
pub fn construct(s: &mut GameLoopState, full_version: bool)
    requires
        old(s).frame_delay_table@ == frame_delay_table_spec(),
    ensures
        final(s).volume == 10,
        final(s).sound_enabled == !full_version,
        !final(s).has_created_character && !final(s).auto_text_advance,
        final(s).camera_follow,
        final(s).difficulty == 2,
        final(s).progress_flags == 8,
        final(s).progress_data == 0,
        final(s).boot_pending && final(s).display,
        final(s).frame_delay == 14,
        final(s).frame_target_ms == 71,
        final(s).frame_delay_table == old(s).frame_delay_table,
        final(s).frame_start_ms == old(s).frame_start_ms,
        final(s).stopped == old(s).stopped,
        final(s).instance == old(s).instance,
        final(s).lock == old(s).lock,
        final(s).current == old(s).current,
        final(s).game_screen == old(s).game_screen,
{
    s.volume = 10;
    s.sound_enabled = !full_version;
    s.has_created_character = false;
    s.auto_text_advance = false;
    s.camera_follow = true;
    s.difficulty = 2;
    s.progress_flags = 0;
    s.progress_data = 0;
    s.boot_pending = true;
    s.display = true;
    s.frame_delay = s.frame_delay_table[2];
    apply_difficulty_fps(s);
    s.progress_flags = s.progress_flags | 8;
    assert(0i8 | 8i8 == 8i8) by (bit_vector);
}

/// `set_fps(fps)`: the frame target becomes `1000 / fps` milliseconds.
pub fn set_fps(s: &mut GameLoopState, fps: i32)
    requires
        fps != 0,
    ensures
        *final(s) == (GameLoopState { frame_target_ms: spec_java_div(1000, fps), ..*old(s) }),
{
    s.frame_target_ms = java_div(1000, fps).unwrap();
}

/// `apply_difficulty_fps()`: runs at the frame delay of the current difficulty.
pub fn apply_difficulty_fps(s: &mut GameLoopState)
    requires
        old(s).frame_delay != 0,
    ensures
        *final(s) == (GameLoopState {
            frame_target_ms: spec_java_div(1000, old(s).frame_delay),
            ..*old(s)
        }),
{
    let frame_delay = s.frame_delay;
    set_fps(s, frame_delay);
}

/// `set_loading_fps()`: 5 frames per second while loading.
pub fn set_loading_fps(s: &mut GameLoopState)
    ensures
        *final(s) == (GameLoopState { frame_target_ms: 200, ..*old(s) }),
{
    set_fps(s, 5);
}

/// `start()`: marks a boot as pending (the host then runs the loop).
pub fn start(s: &mut GameLoopState)
    ensures
        *final(s) == (GameLoopState { boot_pending: true, ..*old(s) }),
{
    s.boot_pending = true;
}

/// `mark_frame_start()`: records the frame's start time `now_ms`.
pub fn mark_frame_start(s: &mut GameLoopState, now_ms: i64)
    ensures
        *final(s) == (GameLoopState { frame_start_ms: now_ms, ..*old(s) }),
{
    s.frame_start_ms = now_ms;
}

/// `sleep_for(start_ms, target_ms)` at time `now_ms`: how long to sleep so that
/// `target_ms` pass since `start_ms`, or `None` to just yield when that time has
/// already passed.
pub fn sleep_for(start_ms: i64, target_ms: i64, now_ms: i64) -> (r: Option<i64>)
    ensures
        now_ms.wrapping_sub(start_ms) >= target_ms ==> r is None,
        now_ms.wrapping_sub(start_ms) < target_ms ==> r == Some(
            target_ms.wrapping_sub(now_ms.wrapping_sub(start_ms)),
        ),
{
    let elapsed_ms = now_ms.wrapping_sub(start_ms);
    if elapsed_ms >= target_ms {
        None
    } else {
        Some(target_ms.wrapping_sub(elapsed_ms))
    }
}

/// `throttle()` at time `now_ms`: the sleep that paces the current frame, unless a
/// cutscene skip fast-forwards (`skip`).
pub fn throttle(s: &GameLoopState, skip: bool, now_ms: i64) -> (r: Option<i64>)
    ensures
        skip ==> r is None,
        !skip ==> r == (if now_ms.wrapping_sub(s.frame_start_ms) >= s.frame_target_ms as i64 {
            None::<i64>
        } else {
            Some((s.frame_target_ms as i64).wrapping_sub(now_ms.wrapping_sub(s.frame_start_ms)))
        }),
{
    if skip {
        return None;
    }
    sleep_for(s.frame_start_ms, s.frame_target_ms as i64, now_ms)
}


/// The first use of the loop runs its class initializer once; `done` records
/// that it ran.
pub fn class_init(s: &mut GameLoopState, done: &mut bool)
    ensures
        *final(done),
        *old(done) ==> *final(s) == *old(s),
        !*old(done) ==> *final(s) == (GameLoopState {
            frame_delay_table: final(s).frame_delay_table,
            lock: true,
            ..*old(s)
        }) && final(s).frame_delay_table@ == frame_delay_table_spec(),
{
    if *done {
        return;
    }
    *done = true;
    clinit_apply(s);
}

/// `create(display)`: initializes the class if needed, constructs the loop
/// (see [`construct`]) and records the singleton.
pub fn create(s: &mut GameLoopState, class_done: &mut bool, full_version: bool)
    requires
        *old(class_done) ==> old(s).frame_delay_table@ == frame_delay_table_spec(),
    ensures
        *final(class_done),
        final(s).instance,
        final(s).frame_delay_table@ == frame_delay_table_spec(),
        final(s).volume == 10,
        final(s).sound_enabled == !full_version,
        !final(s).has_created_character && !final(s).auto_text_advance,
        final(s).camera_follow,
        final(s).difficulty == 2,
        final(s).progress_flags == 8,
        final(s).progress_data == 0,
        final(s).boot_pending && final(s).display,
        final(s).frame_delay == 14,
        final(s).frame_target_ms == 71,
        final(s).frame_start_ms == old(s).frame_start_ms,
        final(s).stopped == old(s).stopped,
        final(s).lock == (*old(class_done) ==> old(s).lock),
        final(s).current == old(s).current,
        final(s).game_screen == old(s).game_screen,
{
    class_init(s, class_done);
    construct(s, full_version);
    s.instance = true;
}

/// One frame of `run()`: unless the loop is stopped, the frame starts at
/// `now_ms` and the pending key is dropped; returns whether the frame runs (the
/// host then repaints the current screen).
pub fn run_one_frame(s: &mut GameLoopState, canvas: &mut crate::base_canvas::BaseCanvasState, now_ms: i64) -> (runs: bool)
    ensures
        runs == !old(s).stopped,
        old(s).stopped ==> *final(s) == *old(s) && *final(canvas) == *old(canvas),
        !old(s).stopped ==> {
            &&& *final(s) == (GameLoopState { frame_start_ms: now_ms, ..*old(s) })
            &&& *final(canvas) == (crate::base_canvas::BaseCanvasState {
                key_down: false,
                pending_key: 0,
                ..*old(canvas)
            })
        },
{
    if s.stopped {
        return false;
    }
    mark_frame_start(s, now_ms);
    crate::base_canvas::flush_key(canvas);
    true
}

} // verus!
