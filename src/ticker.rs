//! What a countdown does at each second.
use vstd::prelude::*;

verus! {

/// What to do at one tick of a countdown.
#[derive(Debug, Clone, Copy, PartialEq, Eq, Structural)]
pub enum TickAction {
    /// Paint the title and this elapsed time, then sleep one second.
    Show { minutes: u32, seconds: u32 },
    /// The countdown was cancelled: paint the farewell and stop everything.
    Farewell,
    /// Every second of the phase has been shown: the phase is over.
    Done,
}

/// The action at elapsed second `elapsed` of a phase of `total` seconds.
pub open spec fn action_at(elapsed: nat, total: nat, cancelled: bool) -> TickAction {
    if elapsed >= total {
        TickAction::Done
    } else if cancelled {
        TickAction::Farewell
    } else {
        TickAction::Show {
            minutes: ((elapsed % 3600) / 60) as u32,
            seconds: (elapsed % 60) as u32,
        }
    }
}

/// Number of whole seconds in a phase of the given length in minutes.
pub fn total_seconds(duration_mins: u32) -> (r: u64)
    ensures
        r == duration_mins as int * 60,
{
    duration_mins as u64 * 60
}

/// Decides the tick at elapsed second `elapsed` of a phase of
/// `total_seconds`, given whether cancellation has been requested.
pub fn next_action(elapsed: u64, total_seconds: u64, cancelled: bool) -> (r: TickAction)
    ensures
        r == action_at(elapsed as nat, total_seconds as nat, cancelled),
        r matches TickAction::Show { minutes, seconds } ==> minutes < 60 && seconds < 60,
{
    if elapsed >= total_seconds {
        TickAction::Done
    } else if cancelled {
        TickAction::Farewell
    } else {
        TickAction::Show { minutes: ((elapsed % 3600) / 60) as u32, seconds: (elapsed % 60) as u32 }
    }
}

} // verus!
