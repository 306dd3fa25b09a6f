//! Worker slots: the decisions of one execution slot between claiming a job
//! and recording its outcome.
//!
//! A slot never runs a job body itself. It tells its driver what to do next
//! (run this job, sleep, stop), and the driver hands back what happened.

use vstd::prelude::*;
use crate::backoff::lemma_backoff_positive;
use crate::clock::valid_time;
use crate::job::Job;
use crate::job::JobStatus;
use crate::job::JobView;
use crate::laws::law_complete_removes_one_row;
use crate::laws::lemma_next_exists;
use crate::registry::is_registered;
use crate::registry::retry_limit;
use crate::store::failure_outcome;
use crate::store::FailureOutcome;
use crate::store::has_id;
use crate::store::index_of;
use crate::store::JobStore;
use crate::store::lemma_index_unique;
use crate::store::lemma_update_keeps_wf;
use crate::store::next_index;
use crate::store::StoreView;

verus! {

/// Seconds a slot sleeps when its queue has no eligible job.
pub const POLL_INTERVAL_SECS: u64 = 1;

/// The failure detail recorded on a job whose type is not registered.
pub const UNKNOWN_JOB_TYPE: &'static str = "unknown job type";

/// What a worker slot is doing.
#[derive(Clone, Copy, Debug, PartialEq, Eq, Structural)]
pub enum SlotState {
    /// Ready to claim a job.
    Idle,
    /// Executing the job with the given identifier.
    Running { job_id: u64 },
    /// Shut down; the slot claims nothing any more.
    Stopped,
}

/// One execution slot of a queue.
#[derive(Clone, Debug)]
pub struct WorkerSlot {
    /// Identifies the slot as a lock holder.
    pub worker_id: u64,
    /// The queue this slot serves.
    pub queue: String,
    /// What the slot is doing.
    pub state: SlotState,
}

/// The mathematical content of a [`WorkerSlot`].
pub struct WorkerSlotView {
    pub worker_id: nat,
    pub queue: Seq<char>,
    pub state: SlotState,
}

impl View for WorkerSlot {
    type V = WorkerSlotView;

    open spec fn view(&self) -> WorkerSlotView {
        WorkerSlotView { worker_id: self.worker_id as nat, queue: self.queue@, state: self.state }
    }
}

/// How the execution of a claimed job ended.
#[derive(Clone, Debug)]
pub enum JobOutcome {
    /// The job body returned successfully.
    Success,
    /// The payload does not match the job type; retrying cannot help.
    DecodeError(String),
    /// The job body returned an error or crashed.
    ExecutionError(String),
}

/// The mathematical content of a [`JobOutcome`].
pub enum JobOutcomeView {
    Success,
    DecodeError(Seq<char>),
    ExecutionError(Seq<char>),
}

impl View for JobOutcome {
    type V = JobOutcomeView;

    open spec fn view(&self) -> JobOutcomeView {
        match self {
            JobOutcome::Success => JobOutcomeView::Success,
            JobOutcome::DecodeError(detail) => JobOutcomeView::DecodeError(detail@),
            JobOutcome::ExecutionError(detail) => JobOutcomeView::ExecutionError(detail@),
        }
    }
}

/// What the driver of a slot has to do next.
#[derive(Clone, Debug)]
pub enum SlotAction {
    /// Decode and run this job, then report the outcome.
    Execute(Job),
    /// The queue is empty: sleep for this many seconds, then poll again.
    Sleep { seconds: u64 },
    /// A job of an unknown type was claimed and failed for good: poll again.
    Rejected { job_id: u64 },
    /// The slot is still running a job: report its outcome first.
    Busy,
    /// The slot has shut down: leave the loop.
    Exit,
}

/// The mathematical content of a [`SlotAction`].
pub enum SlotActionView {
    Execute(JobView),
    Sleep { seconds: nat },
    Rejected { job_id: nat },
    Busy,
    Exit,
}

impl View for SlotAction {
    type V = SlotActionView;

    open spec fn view(&self) -> SlotActionView {
        match self {
            SlotAction::Execute(job) => SlotActionView::Execute(job@),
            SlotAction::Sleep { seconds } => SlotActionView::Sleep { seconds: *seconds as nat },
            SlotAction::Rejected { job_id } => SlotActionView::Rejected { job_id: *job_id as nat },
            SlotAction::Busy => SlotActionView::Busy,
            SlotAction::Exit => SlotActionView::Exit,
        }
    }
}

/// What became of a job once its outcome was reported.
#[derive(Clone, Copy, Debug, PartialEq, Eq, Structural)]
pub enum Settlement {
    /// The job succeeded and its row was deleted.
    Completed,
    /// The job failed and will be retried, not before the given time.
    WillRetry { not_before: i64 },
    /// The job failed for good; its row is kept for inspection.
    FailedForGood,
    /// The row is no longer in flight, as after its lock was released as
    /// stale; the store was left as it was.
    LockLost,
    /// The slot was not running a job; nothing was changed.
    NotRunning,
}

impl WorkerSlotView {
    /// The slot and the store after a poll at time `now`, and the action
    /// that the poll answers with.
    ///
    /// A stopped slot stays stopped and a running slot stays running. An
    /// idle slot stops once shutdown was requested; otherwise it claims the
    /// next job of its queue. With no eligible job it sleeps for
    /// [`POLL_INTERVAL_SECS`]. A claimed job
    /// of a registered type is handed out for execution; one of an unknown
    /// type is failed for good right away.
    pub open spec fn poll(self, store: StoreView, shutdown: bool, now: int) -> (
        WorkerSlotView,
        StoreView,
        SlotActionView,
    ) {
        match self.state {
            SlotState::Stopped => (self, store, SlotActionView::Exit),
            SlotState::Running { .. } => (self, store, SlotActionView::Busy),
            SlotState::Idle => if shutdown {
                (
                    WorkerSlotView { state: SlotState::Stopped, ..self },
                    store,
                    SlotActionView::Exit,
                )
            } else {
                let (claimed_store, claimed) = store.claim_next(self.queue, self.worker_id, now);
                match claimed {
                    None => (
                        self,
                        store,
                        SlotActionView::Sleep { seconds: POLL_INTERVAL_SECS as nat },
                    ),
                    Some(job) => if is_registered(store.definitions, job.job_type) {
                        (
                            WorkerSlotView {
                                state: SlotState::Running { job_id: job.id as u64 },
                                ..self
                            },
                            claimed_store,
                            SlotActionView::Execute(job),
                        )
                    } else {
                        (
                            self,
                            claimed_store.reject(job.id, UNKNOWN_JOB_TYPE@),
                            SlotActionView::Rejected { job_id: job.id },
                        )
                    },
                }
            },
        }
    }

    /// The slot and the store after the outcome of the running job was
    /// reported at time `now`.
    ///
    /// Success deletes the row, a decode error fails it for good, and an
    /// execution error counts as a failed attempt. The slot is idle
    /// afterwards. A slot that is not running a job changes nothing.
    pub open spec fn report(self, store: StoreView, outcome: JobOutcomeView, now: int) -> (
        WorkerSlotView,
        StoreView,
    ) {
        match self.state {
            SlotState::Running { job_id } => (
                WorkerSlotView { state: SlotState::Idle, ..self },
                match outcome {
                    JobOutcomeView::Success => store.complete(job_id as nat),
                    JobOutcomeView::DecodeError(detail) => store.reject(job_id as nat, detail),
                    JobOutcomeView::ExecutionError(detail) => store.fail(
                        job_id as nat,
                        detail,
                        now,
                    ),
                },
            ),
            _ => (self, store),
        }
    }

    /// What a report answers with.
    pub open spec fn settlement(
        self,
        store: StoreView,
        outcome: JobOutcomeView,
        now: int,
    ) -> Settlement {
        match self.state {
            SlotState::Running { job_id } => match outcome {
                JobOutcomeView::Success => if has_id(store.rows, job_id as nat) {
                    Settlement::Completed
                } else {
                    Settlement::LockLost
                },
                JobOutcomeView::DecodeError(_) => if store.in_flight(job_id as nat) {
                    Settlement::FailedForGood
                } else {
                    Settlement::LockLost
                },
                JobOutcomeView::ExecutionError(_) => match failure_outcome(
                    store,
                    job_id as nat,
                    now,
                ) {
                    FailureOutcome::Retry { not_before } => Settlement::WillRetry { not_before },
                    FailureOutcome::Exhausted => Settlement::FailedForGood,
                    FailureOutcome::NotInFlight => Settlement::LockLost,
                },
            },
            _ => Settlement::NotRunning,
        }
    }
}

impl WorkerSlot {
    /// An idle slot of `queue` that locks rows as `worker_id`.
    pub fn new(worker_id: u64, queue: &str) -> (slot: WorkerSlot)
        ensures
            slot@ == (WorkerSlotView {
                worker_id: worker_id as nat,
                queue: queue@,
                state: SlotState::Idle,
            }),
    {
        WorkerSlot { worker_id, queue: queue.to_owned(), state: SlotState::Idle }
    }

    /// Whether the slot has shut down.
    pub fn is_stopped(&self) -> (stopped: bool)
        ensures
            stopped == (self@.state == SlotState::Stopped),
    {
        self.state == SlotState::Stopped
    }

    /// Decides what the slot does next, at time `now`.
    ///
    /// Shutdown is cooperative: a slot that is running a job is never
    /// stopped by a poll, and an idle slot stops instead of claiming once
    /// `shutdown` is set.
    pub fn poll(&mut self, store: &mut JobStore, shutdown: bool, now: i64) -> (action: SlotAction)
        requires
            old(store).wf(),
        ensures
            final(store).wf(),
            (final(self)@, final(store)@, action@) == old(self)@.poll(
                old(store)@,
                shutdown,
                now as int,
            ),
    {
        match self.state {
            SlotState::Stopped => SlotAction::Exit,
            SlotState::Running { job_id } => SlotAction::Busy,
            SlotState::Idle => {
                if shutdown {
                    self.state = SlotState::Stopped;
                    return SlotAction::Exit;
                }
                let claimed = store.claim_next(self.queue.as_str(), self.worker_id, now);
                match claimed {
                    None => SlotAction::Sleep { seconds: POLL_INTERVAL_SECS },
                    Some(job) => {
                        let known = store.registry().position(job.job_type.as_str()).is_some();
                        if known {
                            self.state = SlotState::Running { job_id: job.id };
                            SlotAction::Execute(job)
                        } else {
                            let job_id = job.id;
                            store.reject(job_id, UNKNOWN_JOB_TYPE);
                            SlotAction::Rejected { job_id }
                        }
                    },
                }
            },
        }
    }

    /// Records how the execution of the running job ended, at time `now`.
    pub fn report(&mut self, store: &mut JobStore, outcome: &JobOutcome, now: i64) -> (settled:
        Settlement)
        requires
            old(store).wf(),
            valid_time(now as int),
        ensures
            final(store).wf(),
            (final(self)@, final(store)@) == old(self)@.report(old(store)@, outcome@, now as int),
            settled == old(self)@.settlement(old(store)@, outcome@, now as int),
    {
        match self.state {
            SlotState::Running { job_id } => {
                self.state = SlotState::Idle;
                match outcome {
                    JobOutcome::Success => {
                        if store.complete(job_id) {
                            Settlement::Completed
                        } else {
                            Settlement::LockLost
                        }
                    },
                    JobOutcome::DecodeError(detail) => {
                        if store.reject(job_id, detail.as_str()) {
                            Settlement::FailedForGood
                        } else {
                            Settlement::LockLost
                        }
                    },
                    JobOutcome::ExecutionError(detail) => {
                        match store.fail(job_id, detail.as_str(), now) {
                            FailureOutcome::Retry { not_before } => Settlement::WillRetry {
                                not_before,
                            },
                            FailureOutcome::Exhausted => Settlement::FailedForGood,
                            FailureOutcome::NotInFlight => Settlement::LockLost,
                        }
                    },
                }
            },
            _ => Settlement::NotRunning,
        }
    }
}

/// One turn of a slot settles the job it was given, and loses none.
///
/// The job that a poll hands out is locked by the slot. Once its outcome is
/// reported, the slot is idle again, and the row is gone after a success,
/// failed for good after a decode error, and after an execution error
/// either waiting for a later retry or failed for good, with the failure
/// counted and its detail recorded.
pub proof fn law_turn_settles_job(
    slot: WorkerSlotView,
    store: StoreView,
    outcome: JobOutcomeView,
    now: int,
    later: int,
)
    requires
        store.wf(),
        slot.state == SlotState::Idle,
        slot.poll(store, false, now).2 is Execute,
    ensures
        ({
            let (running, claimed, action) = slot.poll(store, false, now);
            let job = action->Execute_0;
            let (idle, settled) = running.report(claimed, outcome, later);
            &&& running.state == SlotState::Running { job_id: job.id as u64 }
            &&& job.status == JobStatus::Locked
            &&& job.lock_holder == Some(slot.worker_id)
            &&& job.queue == slot.queue
            &&& claimed.in_flight(job.id)
            &&& idle.state == SlotState::Idle
            &&& match outcome {
                JobOutcomeView::Success => !has_id(settled.rows, job.id),
                JobOutcomeView::DecodeError(detail) => {
                    &&& has_id(settled.rows, job.id)
                    &&& settled.rows[index_of(settled.rows, job.id)] == job.rejected(detail)
                },
                JobOutcomeView::ExecutionError(detail) => {
                    let row = settled.rows[index_of(settled.rows, job.id)];
                    &&& has_id(settled.rows, job.id)
                    &&& row.attempts == job.attempts + 1
                    &&& row.last_error == Some(detail)
                    &&& row.status == JobStatus::Failed || (row.status == JobStatus::Retryable
                        && row.not_before > later)
                },
            }
        }),
{
    let (running, claimed, action) = slot.poll(store, false, now);
    let job = action->Execute_0;
    lemma_next_exists(store.rows, slot.queue, now);
    let i = next_index(store.rows, slot.queue, now);
    lemma_update_keeps_wf(store, i, job);
    assert(claimed.rows[i] == job);
    lemma_index_unique(claimed.rows, i);
    let (idle, settled) = running.report(claimed, outcome, later);
    match outcome {
        JobOutcomeView::Success => {
            law_complete_removes_one_row(claimed, job.id);
        },
        JobOutcomeView::DecodeError(detail) => {
            let after = job.rejected(detail);
            lemma_update_keeps_wf(claimed, i, after);
            assert(settled.rows[i] == after);
            lemma_index_unique(settled.rows, i);
        },
        JobOutcomeView::ExecutionError(detail) => {
            let limit = retry_limit(claimed.definitions, job.job_type);
            let after = job.after_failure(detail, later, limit);
            lemma_update_keeps_wf(claimed, i, after);
            assert(settled.rows[i] == after);
            lemma_index_unique(settled.rows, i);
            lemma_backoff_positive(job.attempts + 1);
        },
    }
}

/// Shutdown is cooperative: a poll never takes a job from a slot that is
/// running one, and never touches the store on its behalf; an idle slot
/// that sees the stop request stops without claiming; and a stopped slot
/// stays stopped and leaves the store alone, whatever it is told.
pub proof fn law_shutdown_is_cooperative(
    slot: WorkerSlotView,
    store: StoreView,
    shutdown: bool,
    outcome: JobOutcomeView,
    now: int,
)
    ensures
        slot.state is Running ==> slot.poll(store, shutdown, now) == (
            slot,
            store,
            SlotActionView::Busy,
        ),
        slot.state == SlotState::Idle ==> slot.poll(store, true, now) == (
            WorkerSlotView { state: SlotState::Stopped, ..slot },
            store,
            SlotActionView::Exit,
        ),
        slot.state == SlotState::Stopped ==> slot.poll(store, shutdown, now) == (
            slot,
            store,
            SlotActionView::Exit,
        ),
        slot.state == SlotState::Stopped ==> slot.report(store, outcome, now) == (slot, store),
{
}

} // verus!
