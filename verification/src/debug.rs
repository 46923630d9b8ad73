//! Assertion helper and the global full-version flag.

use vstd::prelude::*;

verus! {

/// The single global build flag: whether this is the full (not demo) version.
/// Copied from the launch configuration at startup.
pub struct DebugState {
    /// `full_version`, `false` until the configuration is read.
    pub full_version: bool,
}

impl DebugState {
    /// The class-load state: `full_version == false`.
    pub fn new() -> (s: Self)
        ensures
            !s.full_version,
    {
        DebugState { full_version: false }
    }
}

impl Default for DebugState {
    fn default() -> (s: Self)
        ensures
            !s.full_version,
    {
        DebugState::new()
    }
}

/// `assert_true(condition)`: the engine's assertion. A false condition is a fatal
/// error on the device, so callers must establish it.
pub fn assert_true(condition: bool)
    requires
        condition,
{
}

} // verus!
