//! The shutdown coordinator's wait protocol.  After the global running flag
//! is cleared, the coordinator polls the registry at a fixed interval until
//! every record reports `running == false`; if that does not happen within
//! a fixed number of polls, a supervisor loop has failed to observe the
//! flag and the process must abort loudly rather than hang.

use vstd::prelude::*;

verus! {

/// How long to sleep between two polls of the registry, in milliseconds.
pub const SHUTDOWN_POLL_INTERVAL_MS: u64 = 100;

/// How many polls the coordinator waits before it gives up: with the
/// 100 ms interval, a bound of about five seconds.
pub const SHUTDOWN_POLL_LIMIT: u64 = 50;

/// What the coordinator must do after observing the registry once.
#[derive(Clone, Copy, PartialEq, Eq, Structural, Debug)]
pub enum ShutdownStep {
    /// Every service has stopped: exit the process with status 0.
    Done,
    /// Something still runs and the bound is not reached: sleep one
    /// interval and poll again.
    PollAgain,
    /// The bound is exhausted while a service still reports running: a
    /// supervisor loop is stuck, an internal invariant violation; abort.
    Fatal,
}

/// The coordinator's decision given one observation of the registry
/// (`any_running`) and the number of polls already made.
pub open spec fn spec_shutdown_step(any_running: bool, polls: u64) -> ShutdownStep {
    if !any_running {
        ShutdownStep::Done
    } else if polls >= SHUTDOWN_POLL_LIMIT {
        ShutdownStep::Fatal
    } else {
        ShutdownStep::PollAgain
    }
}

/// Decide the next step of the shutdown wait.
pub fn shutdown_step(any_running: bool, polls: u64) -> (r: ShutdownStep)
    ensures
        r == spec_shutdown_step(any_running, polls),
{
    if !any_running {
        ShutdownStep::Done
    } else if polls >= SHUTDOWN_POLL_LIMIT {
        ShutdownStep::Fatal
    } else {
        ShutdownStep::PollAgain
    }
}

/// The wait is bounded and cannot hang: the moment no service runs the
/// coordinator is done, whatever the poll count; and no run of the protocol
/// polls more than `SHUTDOWN_POLL_LIMIT` times, because at the limit the
/// only remaining steps are `Done` and `Fatal`.
pub proof fn lemma_shutdown_wait_bounded(any_running: bool, polls: u64)
    ensures
        !any_running ==> spec_shutdown_step(any_running, polls) == ShutdownStep::Done,
        polls >= SHUTDOWN_POLL_LIMIT
            ==> spec_shutdown_step(any_running, polls) != ShutdownStep::PollAgain,
{
}

} // verus!
