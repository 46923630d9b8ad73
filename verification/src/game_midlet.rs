//! The application lifecycle: the singleton flag and the one-time start that
//! creates and starts the game loop.

use vstd::prelude::*;
use crate::game_loop::{self, frame_delay_table_spec, GameLoopState};

verus! {

/// The application's state.
pub struct ApplicationState {
    /// The application singleton exists.
    pub instance: bool,
    /// The display has been acquired.
    pub display: bool,
    /// Startup has run (it runs once, not again on resume).
    pub started: bool,
}

impl ApplicationState {
    /// Before construction: nothing exists.
    pub fn new() -> (a: Self)
        ensures
            !a.instance && !a.display && !a.started,
    {
        ApplicationState { instance: false, display: false, started: false }
    }
}

impl Default for ApplicationState {
    fn default() -> (a: Self)
        ensures
            !a.instance && !a.display && !a.started,
    {
        ApplicationState::new()
    }
}

/// The application constructor: not started, and the singleton recorded.
pub fn construct(a: &mut ApplicationState)
    ensures
        *final(a) == (ApplicationState { started: false, instance: true, ..*old(a) }),
{
    a.started = false;
    a.instance = true;
}

/// `start_app()`: the first time, acquires the display, creates the game loop
/// and starts it; later calls (a resume) do nothing. Returns whether startup
/// ran.
pub fn start_app(
    a: &mut ApplicationState,
    game_loop: &mut GameLoopState,
    loop_class_done: &mut bool,
    full_version: bool,
) -> (ran: bool)
    requires
        *old(loop_class_done) ==> old(game_loop).frame_delay_table@ == frame_delay_table_spec(),
    ensures
        ran == !old(a).started,
        old(a).started ==> *final(a) == *old(a) && *final(game_loop) == *old(game_loop)
            && *final(loop_class_done) == *old(loop_class_done),
        !old(a).started ==> {
            &&& *final(a) == (ApplicationState { started: true, display: true, ..*old(a) })
            &&& *final(loop_class_done)
            &&& final(game_loop).instance && final(game_loop).boot_pending
            &&& final(game_loop).frame_delay_table@ == frame_delay_table_spec()
            &&& final(game_loop).difficulty == 2 && final(game_loop).frame_target_ms == 71
            &&& final(game_loop).volume == 10 && final(game_loop).sound_enabled == !full_version
        },
{
    if a.started {
        return false;
    }
    a.started = true;
    a.display = true;
    game_loop::create(game_loop, loop_class_done, full_version);
    game_loop::start(game_loop);
    true
}

} // verus!
