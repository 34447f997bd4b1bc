//! What a poll of the monitored process can report.

use vstd::prelude::*;

verus! {

/// The state of a process that a poll found; every state but zombie counts
/// as running.
#[derive(Clone, Copy, Debug, PartialEq, Eq, Structural)]
pub enum ProcessState {
    Running,
    Zombie,
}

/// Whether a loop polls again after this poll: only while the process is
/// there and is no zombie.
pub open spec fn polls_again(state: Option<ProcessState>) -> bool {
    state == Some(ProcessState::Running)
}

/// Whether a loop polls again after a poll that found `state` (`None`: the
/// process is gone).
pub fn keep_polling(state: Option<ProcessState>) -> (b: bool)
    ensures
        b == polls_again(state),
{
    match state {
        Some(ProcessState::Running) => true,
        _ => false,
    }
}

} // verus!
