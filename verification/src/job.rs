//! The job record: one durable unit of background work.

use vstd::prelude::*;

verus! {

/// Where a job stands in its lifecycle.
#[derive(Clone, Copy, Debug, PartialEq, Eq, Structural)]
pub enum JobStatus {
    /// Waiting for its first execution.
    Pending,
    /// Claimed by a worker slot and in flight.
    Locked,
    /// Failed, and scheduled for another attempt.
    Retryable,
    /// Failed for good; kept for inspection and never claimed again.
    Failed,
}

/// One row of the job record store.
#[derive(Clone, Debug)]
pub struct Job {
    /// Unique identifier, assigned in increasing order.
    pub id: u64,
    /// Names the registered definition that decodes and executes this job.
    pub job_type: String,
    /// Serialized arguments, opaque to the store.
    pub payload: Vec<u8>,
    /// The lane whose worker slots may claim this job.
    pub queue: String,
    /// Higher values are claimed first within a queue.
    pub priority: i16,
    /// Time of insertion; earlier rows win among equal priorities.
    pub created_at: i64,
    /// Lifecycle state.
    pub status: JobStatus,
    /// The worker slot that owns the row while it is locked.
    pub lock_holder: Option<u64>,
    /// Since when the row has been locked.
    pub locked_at: Option<i64>,
    /// Number of failed executions so far.
    pub attempts: u32,
    /// Detail of the most recent failure.
    pub last_error: Option<String>,
    /// Earliest time at which a retryable row may be claimed again.
    pub not_before: i64,
    /// Scope within which at most one live row of this job type may exist.
    pub dedup_key: Option<Vec<u8>>,
}

/// The mathematical content of a [`Job`].
pub struct JobView {
    pub id: nat,
    pub job_type: Seq<char>,
    pub payload: Seq<u8>,
    pub queue: Seq<char>,
    pub priority: int,
    pub created_at: int,
    pub status: JobStatus,
    pub lock_holder: Option<nat>,
    pub locked_at: Option<int>,
    pub attempts: nat,
    pub last_error: Option<Seq<char>>,
    pub not_before: int,
    pub dedup_key: Option<Seq<u8>>,
}

/// The characters of an optional string.
pub open spec fn text_of(text: Option<String>) -> Option<Seq<char>> {
    match text {
        Some(s) => Some(s@),
        None => None,
    }
}

/// The bytes of an optional byte string.
pub open spec fn bytes_of(bytes: Option<Vec<u8>>) -> Option<Seq<u8>> {
    match bytes {
        Some(b) => Some(b@),
        None => None,
    }
}

impl View for Job {
    type V = JobView;

    open spec fn view(&self) -> JobView {
        JobView {
            id: self.id as nat,
            job_type: self.job_type@,
            payload: self.payload@,
            queue: self.queue@,
            priority: self.priority as int,
            created_at: self.created_at as int,
            status: self.status,
            lock_holder: match self.lock_holder {
                Some(w) => Some(w as nat),
                None => None,
            },
            locked_at: match self.locked_at {
                Some(t) => Some(t as int),
                None => None,
            },
            attempts: self.attempts as nat,
            last_error: text_of(self.last_error),
            not_before: self.not_before as int,
            dedup_key: bytes_of(self.dedup_key),
        }
    }
}

impl JobView {
    /// A row is terminal once it has failed for good.
    pub open spec fn is_live(self) -> bool {
        self.status != JobStatus::Failed
    }

    /// Whether a worker of `queue` may claim this row at time `now`: it is
    /// pending, or retryable with its backoff elapsed.
    pub open spec fn eligible(self, queue: Seq<char>, now: int) -> bool {
        &&& self.queue == queue
        &&& (self.status == JobStatus::Pending || (self.status == JobStatus::Retryable
            && self.not_before <= now))
    }

    /// Whether this row is served strictly before `other`: by higher
    /// priority, then earlier insertion, then smaller identifier.
    pub open spec fn precedes(self, other: JobView) -> bool {
        ||| self.priority > other.priority
        ||| (self.priority == other.priority && self.created_at < other.created_at)
        ||| (self.priority == other.priority && self.created_at == other.created_at && self.id
            < other.id)
    }

    /// The lock fields are set exactly while the row is locked.
    pub open spec fn well_formed(self) -> bool {
        &&& self.status == JobStatus::Locked <==> self.lock_holder.is_some()
        &&& self.status == JobStatus::Locked <==> self.locked_at.is_some()
    }

    /// The row as it is once `worker` has claimed it at time `now`.
    pub open spec fn locked_by(self, worker: nat, now: int) -> JobView {
        JobView {
            status: JobStatus::Locked,
            lock_holder: Some(worker),
            locked_at: Some(now),
            ..self
        }
    }

    /// The row as it is after a stale lock was taken from it at time `now`:
    /// claimable at once, with its attempt count untouched.
    pub open spec fn released(self, now: int) -> JobView {
        JobView {
            status: JobStatus::Retryable,
            lock_holder: None,
            locked_at: None,
            not_before: now,
            ..self
        }
    }

    /// The row as it is after it was given up without an execution, as when
    /// its payload cannot be decoded: failed for good, with its attempt count
    /// untouched.
    pub open spec fn rejected(self, error: Seq<char>) -> JobView {
        JobView {
            status: JobStatus::Failed,
            lock_holder: None,
            locked_at: None,
            last_error: Some(error),
            ..self
        }
    }

    /// The row as it is after a failed execution reported at time `now`,
    /// under a limit of `max_attempts` retries: the failure is counted, and
    /// the row waits out its backoff unless the count now exceeds the limit.
    pub open spec fn after_failure(self, error: Seq<char>, now: int, max_attempts: nat) -> JobView {
        JobView {
            status: if self.attempts + 1 > max_attempts {
                JobStatus::Failed
            } else {
                JobStatus::Retryable
            },
            lock_holder: None,
            locked_at: None,
            attempts: self.attempts + 1,
            last_error: Some(error),
            not_before: if self.attempts + 1 > max_attempts {
                self.not_before
            } else {
                now + crate::backoff::backoff_delay(self.attempts + 1)
            },
            ..self
        }
    }
}

/// Copies an optional string.
pub fn copy_text(text: &Option<String>) -> (copy: Option<String>)
    ensures
        text_of(copy) == text_of(*text),
{
    match text {
        Some(s) => Some(s.clone()),
        None => None,
    }
}

/// Copies a byte string.
pub fn copy_bytes(bytes: &Vec<u8>) -> (copy: Vec<u8>)
    ensures
        copy@ == bytes@,
{
    let mut copy: Vec<u8> = Vec::new();
    let mut i: usize = 0;
    while i < bytes.len()
        invariant
            i <= bytes.len(),
            copy@ == bytes@.subrange(0, i as int),
        decreases bytes.len() - i,
    {
        copy.push(bytes[i]);
        i = i + 1;
    }
    copy
}

/// Copies an optional byte string.
pub fn copy_key(bytes: &Option<Vec<u8>>) -> (copy: Option<Vec<u8>>)
    ensures
        bytes_of(copy) == bytes_of(*bytes),
{
    match bytes {
        Some(b) => Some(copy_bytes(b)),
        None => None,
    }
}

/// Compares two byte strings.
pub fn same_bytes(left: &Vec<u8>, right: &Vec<u8>) -> (same: bool)
    ensures
        same == (left@ == right@),
{
    if left.len() != right.len() {
        return false;
    }
    let mut i: usize = 0;
    while i < left.len()
        invariant
            i <= left.len(),
            left.len() == right.len(),
            left@.subrange(0, i as int) == right@.subrange(0, i as int),
        decreases left.len() - i,
    {
        if left[i] != right[i] {
            return false;
        }
        proof {
            assert(left@.subrange(0, i + 1) =~= left@.subrange(0, i as int).push(left@[i as int]));
            assert(right@.subrange(0, i + 1) =~= right@.subrange(0, i as int).push(
                right@[i as int],
            ));
        }
        i = i + 1;
    }
    proof {
        assert(left@ =~= left@.subrange(0, i as int));
        assert(right@ =~= right@.subrange(0, i as int));
    }
    true
}

impl Job {
    /// Whether a worker of `queue` may claim this row at time `now`.
    pub fn is_eligible(&self, queue: &String, now: i64) -> (ok: bool)
        ensures
            ok == self@.eligible(queue@, now as int),
    {
        self.queue == *queue && (self.status == JobStatus::Pending || (self.status
            == JobStatus::Retryable && self.not_before <= now))
    }

    /// Whether this row is served strictly before `other`.
    pub fn is_before(&self, other: &Job) -> (ok: bool)
        ensures
            ok == self@.precedes(other@),
    {
        self.priority > other.priority || (self.priority == other.priority && self.created_at
            < other.created_at) || (self.priority == other.priority && self.created_at
            == other.created_at && self.id < other.id)
    }

    /// An independent copy of this row.
    pub fn duplicate(&self) -> (copy: Job)
        ensures
            copy@ == self@,
    {
        Job {
            id: self.id,
            job_type: self.job_type.clone(),
            payload: copy_bytes(&self.payload),
            queue: self.queue.clone(),
            priority: self.priority,
            created_at: self.created_at,
            status: self.status,
            lock_holder: self.lock_holder,
            locked_at: self.locked_at,
            attempts: self.attempts,
            last_error: copy_text(&self.last_error),
            not_before: self.not_before,
            dedup_key: copy_key(&self.dedup_key),
        }
    }
}

} // verus!
