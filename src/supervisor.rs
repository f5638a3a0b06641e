//! The restart policy of the two multicast discovery legs (announcing and
//! listening): when either ends, report it, wait for the back-off or a change
//! of the network interfaces, whichever comes first, then restart both.
use vstd::prelude::*;

verus! {

/// Seconds to wait before restarting the discovery legs.
pub const RESTART_BACKOFF_SECS: u64 = 10;

/// Whether the legs are running or waiting to be restarted.
#[derive(Debug, Clone, Copy, PartialEq, Eq, Structural)]
pub enum LegsState {
    Running,
    Waiting,
}

/// What the runtime observed.
#[derive(Debug, Clone, Copy, PartialEq, Eq, Structural)]
pub enum LegsEvent {
    /// One of the legs ended, with an error or not.
    LegEnded { failed: bool },
    /// The operating system reported a change of network interfaces.
    NetworkChanged,
    /// The back-off wait is over.
    BackoffElapsed,
}

/// What the runtime should do.
#[derive(Debug, Clone, Copy, PartialEq, Eq, Structural)]
pub enum LegsAction {
    Nothing,
    /// Report the network change to the front ends.
    ReportNetworkChange,
    /// Report the ended leg (and its error, if any), stop the other leg and
    /// start the back-off wait.
    ReportAndWait { failed: bool },
    /// Report the reconnection and start both legs again.
    Restart,
}

/// The next state and the action for one event.
pub open spec fn legs_step(s: LegsState, e: LegsEvent) -> (LegsState, LegsAction) {
    match (s, e) {
        (LegsState::Running, LegsEvent::LegEnded { failed }) => (
            LegsState::Waiting,
            LegsAction::ReportAndWait { failed },
        ),
        (LegsState::Running, LegsEvent::NetworkChanged) => (
            LegsState::Running,
            LegsAction::ReportNetworkChange,
        ),
        (LegsState::Running, LegsEvent::BackoffElapsed) => (LegsState::Running, LegsAction::Nothing),
        (LegsState::Waiting, LegsEvent::LegEnded { .. }) => (LegsState::Waiting, LegsAction::Nothing),
        (LegsState::Waiting, _) => (LegsState::Running, LegsAction::Restart),
    }
}

/// Decides what one event does to the discovery legs.
pub fn next_legs_state(s: LegsState, e: LegsEvent) -> (r: (LegsState, LegsAction))
    ensures
        r == legs_step(s, e),
{
    match s {
        LegsState::Running => match e {
            LegsEvent::LegEnded { failed } => (LegsState::Waiting, LegsAction::ReportAndWait { failed }),
            LegsEvent::NetworkChanged => (LegsState::Running, LegsAction::ReportNetworkChange),
            LegsEvent::BackoffElapsed => (LegsState::Running, LegsAction::Nothing),
        },
        LegsState::Waiting => match e {
            LegsEvent::LegEnded { .. } => (LegsState::Waiting, LegsAction::Nothing),
            _ => (LegsState::Running, LegsAction::Restart),
        },
    }
}

} // verus!
