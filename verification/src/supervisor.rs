//! The per-service supervisor loop as an explicit state machine.
//!
//! One `SupervisorLoop` value belongs to exactly one service.  The caller
//! owns the blocking work (spawning the child, waiting for it, sleeping
//! through the backoff delay) and drives the machine with the observed
//! events; every transition and every decision is made here, so the whole
//! spawn/wait/classify/decide cycle is verified.  Each method returns the
//! `Action` the caller must perform next.

use vstd::prelude::*;
use crate::policy::{Outcome, Decision, spec_decide, decide};

verus! {

/// The state of one supervisor loop.
#[derive(Clone, Copy, PartialEq, Eq, Structural, Debug)]
pub enum LoopState {
    /// Before a spawn decision has been made for the next attempt.
    Idle,
    /// The next attempt is counted and a spawn is in progress.
    Spawning,
    /// A child process is alive.
    Running,
    /// The last attempt ended with the given outcome.
    Exited(Outcome),
    /// A restart is due after the given delay in seconds.
    Backoff(u64),
    /// Final: the loop has ended and the service is given up.
    Terminated,
}

/// The blocking work the caller must perform after a transition.
#[derive(Clone, Copy, PartialEq, Eq, Structural, Debug)]
pub enum Action {
    /// Spawn the child and report the result through `on_spawn_result`.
    SpawnNow,
    /// Block until the child exits and report through `on_child_exit`.
    WaitChild,
    /// Call `decide_next` to consult the restart policy.
    ConsultPolicy,
    /// Sleep for the given delay in seconds, then call `next_attempt`.
    SleepThenRetry(u64),
    /// The loop is over; mark the service stopped and return.
    Finish,
}

/// Classification of a child's wait result: exit code 0 is a success, any
/// other exit (including death by signal, reported without a code) is a
/// failure.
pub open spec fn spec_classify_exit(exit_code: Option<i32>) -> Outcome {
    if exit_code == Some(0i32) {
        Outcome::Success
    } else {
        Outcome::Failure
    }
}

/// One service's supervisor loop: its declared restart policy plus the
/// mutable loop state.
pub struct SupervisorLoop {
    /// Upper bound on restart attempts; unbounded if absent.
    pub max_restarts: Option<usize>,
    /// Whether an exit with code 0 still triggers a restart.
    pub restart_on_success: bool,
    /// Whether restart delays grow exponentially.
    pub expo_backoff: bool,
    /// Where in the spawn/wait/classify/decide cycle the loop stands.
    pub state: LoopState,
    /// 1-based count of spawn attempts made so far.
    pub attempts: usize,
}

impl SupervisorLoop {
    /// The policy parameters never change over the life of the loop.
    pub open spec fn same_policy(self, other: Self) -> bool {
        &&& self.max_restarts == other.max_restarts
        &&& self.restart_on_success == other.restart_on_success
        &&& self.expo_backoff == other.expo_backoff
    }

    /// Internal consistency: attempts are counted from the first spawn on.
    pub open spec fn wf(self) -> bool {
        match self.state {
            LoopState::Idle => self.attempts == 0,
            LoopState::Spawning => self.attempts >= 1,
            LoopState::Running => self.attempts >= 1,
            LoopState::Exited(_) => self.attempts >= 1,
            LoopState::Backoff(_) => self.attempts >= 1,
            LoopState::Terminated => true,
        }
    }

    /// A fresh loop for a service with the given restart policy.
    pub fn new(
        max_restarts: Option<usize>,
        restart_on_success: bool,
        expo_backoff: bool,
    ) -> (s: Self)
        ensures
            s.state == LoopState::Idle,
            s.attempts == 0,
            s.max_restarts == max_restarts,
            s.restart_on_success == restart_on_success,
            s.expo_backoff == expo_backoff,
            s.wf(),
    {
        SupervisorLoop {
            max_restarts,
            restart_on_success,
            expo_backoff,
            state: LoopState::Idle,
            attempts: 0,
        }
    }

    /// Iteration boundary: check the global running flag.  A cleared flag
    /// terminates the loop without spawning; otherwise the next attempt is
    /// counted and the caller must spawn the child.
    pub fn next_attempt(&mut self, flag_running: bool) -> (a: Action)
        requires
            old(self).wf(),
            old(self).state matches LoopState::Idle || old(self).state matches LoopState::Backoff(_),
            old(self).attempts < usize::MAX,
        ensures
            final(self).wf(),
            old(self).same_policy(*final(self)),
            !flag_running ==> {
                &&& final(self).state == LoopState::Terminated
                &&& final(self).attempts == old(self).attempts
                &&& a == Action::Finish
            },
            flag_running ==> {
                &&& final(self).state == LoopState::Spawning
                &&& final(self).attempts == old(self).attempts + 1
                &&& a == Action::SpawnNow
            },
    {
        if !flag_running {
            self.state = LoopState::Terminated;
            Action::Finish
        } else {
            self.attempts = self.attempts + 1;
            self.state = LoopState::Spawning;
            Action::SpawnNow
        }
    }

    /// Report whether the spawn produced a live child.  A spawn failure is
    /// a local failed attempt (`Outcome::SpawnError`), never a fault of the
    /// supervisor as a whole.
    pub fn on_spawn_result(&mut self, spawned: bool) -> (a: Action)
        requires
            old(self).wf(),
            old(self).state == LoopState::Spawning,
        ensures
            final(self).wf(),
            old(self).same_policy(*final(self)),
            final(self).attempts == old(self).attempts,
            spawned ==> final(self).state == LoopState::Running && a == Action::WaitChild,
            !spawned ==> {
                &&& final(self).state == LoopState::Exited(Outcome::SpawnError)
                &&& a == Action::ConsultPolicy
            },
    {
        if spawned {
            self.state = LoopState::Running;
            Action::WaitChild
        } else {
            self.state = LoopState::Exited(Outcome::SpawnError);
            Action::ConsultPolicy
        }
    }

    /// Report that the child exited with the given code (absent when the
    /// child was killed before exiting).  Exit code 0 classifies as a
    /// success, everything else as a failure.
    pub fn on_child_exit(&mut self, exit_code: Option<i32>) -> (a: Action)
        requires
            old(self).wf(),
            old(self).state == LoopState::Running,
        ensures
            final(self).wf(),
            old(self).same_policy(*final(self)),
            final(self).attempts == old(self).attempts,
            final(self).state == LoopState::Exited(spec_classify_exit(exit_code)),
            a == Action::ConsultPolicy,
    {
        if exit_code == Some(0i32) {
            self.state = LoopState::Exited(Outcome::Success);
        } else {
            self.state = LoopState::Exited(Outcome::Failure);
        }
        Action::ConsultPolicy
    }

    /// Consult the restart policy with the attempt count so far: either the
    /// loop terminates, or a restart is due after the policy's delay.
    pub fn decide_next(&mut self) -> (a: Action)
        requires
            old(self).wf(),
            old(self).state matches LoopState::Exited(_),
        ensures
            final(self).wf(),
            old(self).same_policy(*final(self)),
            final(self).attempts == old(self).attempts,
            ({
                let outcome = old(self).state->Exited_0;
                let d = spec_decide(
                    old(self).attempts as nat,
                    outcome,
                    old(self).max_restarts,
                    old(self).restart_on_success,
                    old(self).expo_backoff,
                );
                match d {
                    Decision::Stop => {
                        &&& final(self).state == LoopState::Terminated
                        &&& a == Action::Finish
                    },
                    Decision::RestartAfter(delay) => {
                        &&& final(self).state == LoopState::Backoff(delay)
                        &&& a == Action::SleepThenRetry(delay)
                    },
                }
            }),
    {
        let outcome = match self.state {
            LoopState::Exited(o) => o,
            _ => Outcome::Failure,
        };
        match decide(
            self.attempts,
            outcome,
            self.max_restarts,
            self.restart_on_success,
            self.expo_backoff,
        ) {
            Decision::Stop => {
                self.state = LoopState::Terminated;
                Action::Finish
            },
            Decision::RestartAfter(delay) => {
                self.state = LoopState::Backoff(delay);
                Action::SleepThenRetry(delay)
            },
        }
    }
}

} // verus!
