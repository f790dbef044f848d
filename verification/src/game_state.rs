//! Whether a game is running.
use vstd::prelude::*;

verus! {

#[derive(Clone, Copy, Debug, PartialEq, Eq, Structural)]
pub enum RunState {
    NotRunning,
    /// Running under the given process id.
    Running(u32),
}

impl Default for RunState {
    fn default() -> (res: Self)
        ensures
            res == RunState::NotRunning,
    {
        RunState::NotRunning
    }
}

} // verus!
