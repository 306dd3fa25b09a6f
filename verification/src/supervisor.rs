//! The runner supervisor: rebuild the runner after an infrastructure
//! failure, and give up once failures exceed a ceiling.

use vstd::prelude::*;

verus! {

/// How many failures the supervisor answers with a rebuild.
pub const MAX_FAILURES: u32 = 5;

/// Seconds between two warnings while the supervisor is parked.
pub const PARK_INTERVAL_SECS: u64 = 60;

/// The state of the supervisor.
#[derive(Clone, Copy, Debug, PartialEq, Eq, Structural)]
pub enum SupervisorState {
    /// A runner is being built or is running.
    Running,
    /// Failures exceeded the ceiling; the process has to terminate.
    Failed,
}

/// What the supervisor is told about its runner.
#[derive(Clone, Copy, Debug, PartialEq, Eq, Structural)]
pub enum RunnerEvent {
    /// Building, starting or waiting for the runner returned an error.
    Failure,
    /// The runner drained and stopped after an operator's stop request.
    CleanShutdown,
}

/// What the process has to do next.
#[derive(Clone, Copy, Debug, PartialEq, Eq, Structural)]
pub enum SupervisorAction {
    /// No database connection is writable: do not start a runner; log a
    /// warning every so many seconds and wait.
    Park { warn_every_secs: u64 },
    /// Build all collaborators and the runner, and start it.
    Build,
    /// Tear everything down and build the runner again from scratch.
    Rebuild,
    /// The runner stopped cleanly: exit normally.
    Exit,
    /// The environment is broken beyond retrying: terminate abnormally.
    Abort,
}

/// The process-level controller of a runner.
#[derive(Clone, Copy, Debug, PartialEq, Eq, Structural)]
pub struct Supervisor {
    /// Whether the supervisor still runs or has given up.
    pub state: SupervisorState,
    /// Failures seen since the start or the last clean shutdown.
    pub failures: u32,
}

impl Supervisor {
    /// The failure count never passes the ceiling by more than one.
    pub open spec fn wf(self) -> bool {
        &&& self.failures <= MAX_FAILURES + 1
        &&& self.state == SupervisorState::Failed <==> self.failures > MAX_FAILURES
    }

    /// The supervisor and its answer after `event`.
    ///
    /// A failure is counted; up to the ceiling it is answered with a
    /// rebuild, beyond it the supervisor gives up for good. A clean shutdown
    /// resets the count and is answered with a normal exit. Once it has
    /// given up, the supervisor answers every event with an abort.
    pub open spec fn step(self, event: RunnerEvent) -> (Supervisor, SupervisorAction) {
        if self.state == SupervisorState::Failed {
            (self, SupervisorAction::Abort)
        } else {
            match event {
                RunnerEvent::CleanShutdown => (
                    Supervisor { state: SupervisorState::Running, failures: 0 },
                    SupervisorAction::Exit,
                ),
                RunnerEvent::Failure => if self.failures + 1 > MAX_FAILURES {
                    (
                        Supervisor {
                            state: SupervisorState::Failed,
                            failures: (self.failures + 1) as u32,
                        },
                        SupervisorAction::Abort,
                    )
                } else {
                    (
                        Supervisor {
                            state: SupervisorState::Running,
                            failures: (self.failures + 1) as u32,
                        },
                        SupervisorAction::Rebuild,
                    )
                },
            }
        }
    }

    /// The supervisor after `count` failures in a row.
    pub open spec fn after_failures(self, count: nat) -> Supervisor
        decreases count,
    {
        if count == 0 {
            self
        } else {
            self.after_failures((count - 1) as nat).step(RunnerEvent::Failure).0
        }
    }

    /// A supervisor that has seen no failure.
    pub fn new() -> (supervisor: Supervisor)
        ensures
            supervisor.wf(),
            supervisor == (Supervisor { state: SupervisorState::Running, failures: 0 }),
    {
        Supervisor { state: SupervisorState::Running, failures: 0 }
    }

    /// Decides, before the main loop, whether a runner may be started at
    /// all: not while every database connection is read-only.
    pub fn precheck(&self, all_read_only: bool) -> (action: SupervisorAction)
        ensures
            action == if all_read_only {
                SupervisorAction::Park { warn_every_secs: PARK_INTERVAL_SECS }
            } else {
                SupervisorAction::Build
            },
    {
        if all_read_only {
            SupervisorAction::Park { warn_every_secs: PARK_INTERVAL_SECS }
        } else {
            SupervisorAction::Build
        }
    }

    /// Takes note of `event` and decides what the process does next.
    pub fn on_event(&mut self, event: RunnerEvent) -> (action: SupervisorAction)
        requires
            old(self).wf(),
        ensures
            final(self).wf(),
            (*final(self), action) == old(self).step(event),
    {
        if self.state == SupervisorState::Failed {
            return SupervisorAction::Abort;
        }
        match event {
            RunnerEvent::CleanShutdown => {
                self.failures = 0;
                SupervisorAction::Exit
            },
            RunnerEvent::Failure => {
                self.failures = self.failures + 1;
                if self.failures > MAX_FAILURES {
                    self.state = SupervisorState::Failed;
                    SupervisorAction::Abort
                } else {
                    SupervisorAction::Rebuild
                }
            },
        }
    }
}

/// The restart ceiling: counted from a fresh supervisor, each of the first
/// [`MAX_FAILURES`] failures in a row is answered with a rebuild, and the
/// one after with an abort.
pub proof fn law_ceiling_on_failures(count: nat)
    requires
        count <= MAX_FAILURES,
    ensures
        ({
            let fresh = Supervisor { state: SupervisorState::Running, failures: 0 };
            let so_far = fresh.after_failures(count);
            &&& so_far.wf()
            &&& so_far.state == SupervisorState::Running
            &&& so_far.failures == count
            &&& so_far.step(RunnerEvent::Failure).1 == if count < MAX_FAILURES {
                SupervisorAction::Rebuild
            } else {
                SupervisorAction::Abort
            }
        }),
    decreases count,
{
    if count > 0 {
        law_ceiling_on_failures((count - 1) as nat);
    }
}

/// Giving up is final: whatever a failed supervisor is told, it stays
/// failed and answers with an abort.
pub proof fn law_failed_is_final(supervisor: Supervisor, event: RunnerEvent)
    requires
        supervisor.state == SupervisorState::Failed,
    ensures
        supervisor.step(event) == (supervisor, SupervisorAction::Abort),
{
}

} // verus!
