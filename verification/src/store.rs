//! The job record store: enqueue, claim, complete, fail and stale-lock
//! recovery over the table of job rows.
//!
//! Every operation takes the store by exclusive reference, so a claim selects
//! and locks its row in one indivisible step.

use vstd::prelude::*;
use crate::backoff::backoff_delay_secs;
use crate::backoff::lemma_backoff_bounded;
use crate::clock::valid_time;
use crate::error::PersistenceError;
use crate::job::bytes_of;
use crate::job::copy_bytes;
use crate::job::Job;
use crate::job::JobStatus;
use crate::job::JobView;
use crate::job::same_bytes;
use crate::registry::distinct_types;
use crate::registry::JobDefinition;
use crate::registry::JobDefinitionView;
use crate::registry::Registry;
use crate::registry::retry_limit;

verus! {

/// The identifier given to the first job of a fresh store.
pub const FIRST_JOB_ID: u64 = 1;

/// Whether some row of `rows` carries the identifier `id`.
pub open spec fn has_id(rows: Seq<JobView>, id: nat) -> bool {
    exists|i: int| 0 <= i < rows.len() && (#[trigger] rows[i]).id == id
}

/// The position of the row with identifier `id`.
pub open spec fn index_of(rows: Seq<JobView>, id: nat) -> int {
    choose|i: int| 0 <= i < rows.len() && (#[trigger] rows[i]).id == id
}

/// Whether `row` stands in the way of enqueueing a deduplicated job of type
/// `job_type` under the key `key`: it is live and has that type and key.
pub open spec fn is_duplicate(row: JobView, job_type: Seq<char>, key: Seq<u8>) -> bool {
    &&& row.is_live()
    &&& row.job_type == job_type
    &&& row.dedup_key == Some(key)
}

/// Whether `rows` holds a live row of type `job_type` with key `key`.
pub open spec fn has_duplicate(rows: Seq<JobView>, job_type: Seq<char>, key: Seq<u8>) -> bool {
    exists|i: int| 0 <= i < rows.len() && is_duplicate(#[trigger] rows[i], job_type, key)
}

/// The position of the live row of type `job_type` with key `key`.
pub open spec fn duplicate_index(rows: Seq<JobView>, job_type: Seq<char>, key: Seq<u8>) -> int {
    choose|i: int| 0 <= i < rows.len() && is_duplicate(#[trigger] rows[i], job_type, key)
}

/// Whether some row of `rows` may be claimed for `queue` at time `now`.
pub open spec fn has_eligible(rows: Seq<JobView>, queue: Seq<char>, now: int) -> bool {
    exists|i: int| 0 <= i < rows.len() && (#[trigger] rows[i]).eligible(queue, now)
}

/// Whether the row at position `i` is the one a claim for `queue` at time
/// `now` takes: it is eligible, and served before every other eligible row.
pub open spec fn is_next(rows: Seq<JobView>, queue: Seq<char>, now: int, i: int) -> bool {
    &&& 0 <= i < rows.len()
    &&& rows[i].eligible(queue, now)
    &&& forall|j: int|
        0 <= j < rows.len() && j != i && (#[trigger] rows[j]).eligible(queue, now)
            ==> rows[i].precedes(rows[j])
}

/// The position of the row that a claim for `queue` at time `now` takes.
pub open spec fn next_index(rows: Seq<JobView>, queue: Seq<char>, now: int) -> int {
    choose|i: int| is_next(rows, queue, now, i)
}

/// Whether the lock on `row` has been held for longer than `threshold`
/// seconds at time `now`.
pub open spec fn is_stale(row: JobView, threshold: int, now: int) -> bool {
    &&& row.status == JobStatus::Locked
    &&& row.locked_at matches Some(since)
    &&& now - since > threshold
}

/// The number of rows of `rows` whose lock is stale.
pub open spec fn stale_count(rows: Seq<JobView>, threshold: int, now: int) -> nat
    decreases rows.len(),
{
    if rows.len() == 0 {
        0
    } else {
        stale_count(rows.drop_last(), threshold, now) + if is_stale(rows.last(), threshold, now) {
            1nat
        } else {
            0nat
        }
    }
}

/// Identifiers grow strictly along the rows.
pub open spec fn ids_increasing(rows: Seq<JobView>) -> bool {
    forall|i: int, j: int|
        0 <= i < j < rows.len() ==> (#[trigger] rows[i]).id < (#[trigger] rows[j]).id
}

/// No two live rows share a job type and a deduplication key.
pub open spec fn deduplicated(rows: Seq<JobView>) -> bool {
    forall|i: int, j: int|
        0 <= i < j < rows.len() && (#[trigger] rows[i]).is_live() && (#[trigger] rows[j]).is_live()
            && rows[i].job_type == rows[j].job_type && rows[i].dedup_key.is_some()
            ==> rows[i].dedup_key != rows[j].dedup_key
}

/// The mathematical content of a [`JobStore`].
pub struct StoreView {
    /// The rows, in order of insertion.
    pub rows: Seq<JobView>,
    /// The identifier that the next new row receives.
    pub next_id: nat,
    /// The registered job types.
    pub definitions: Seq<JobDefinitionView>,
}

impl StoreView {
    /// The invariant of the store.
    pub open spec fn wf(self) -> bool {
        &&& self.next_id <= u64::MAX
        &&& forall|i: int| 0 <= i < self.rows.len() ==> (#[trigger] self.rows[i]).well_formed()
        &&& forall|i: int| 0 <= i < self.rows.len() ==> (#[trigger] self.rows[i]).id < self.next_id
        &&& forall|i: int|
            0 <= i < self.rows.len() && (#[trigger] self.rows[i]).is_live()
                ==> self.rows[i].attempts <= retry_limit(self.definitions, self.rows[i].job_type)
        &&& ids_increasing(self.rows)
        &&& deduplicated(self.rows)
        &&& distinct_types(self.definitions)
        &&& forall|i: int|
            0 <= i < self.definitions.len() ==> (#[trigger] self.definitions[i]).valid()
    }

    /// The row that an enqueue at time `now` inserts.
    pub open spec fn new_row(
        self,
        job_type: Seq<char>,
        queue: Seq<char>,
        priority: int,
        payload: Seq<u8>,
        dedup_key: Option<Seq<u8>>,
        now: int,
    ) -> JobView {
        JobView {
            id: self.next_id,
            job_type,
            payload,
            queue,
            priority,
            created_at: now,
            status: JobStatus::Pending,
            lock_holder: None,
            locked_at: None,
            attempts: 0,
            last_error: None,
            not_before: now,
            dedup_key,
        }
    }

    /// The store and the answer after an enqueue.
    ///
    /// With a deduplication key and a live row of the same type and key, the
    /// store is unchanged and the answer is that row's identifier. Otherwise a
    /// pending row is appended under the next identifier, unless identifiers
    /// have run out.
    pub open spec fn enqueue(
        self,
        job_type: Seq<char>,
        queue: Seq<char>,
        priority: int,
        payload: Seq<u8>,
        dedup_key: Option<Seq<u8>>,
        now: int,
    ) -> (StoreView, Result<nat, PersistenceError>) {
        if dedup_key matches Some(key) && has_duplicate(self.rows, job_type, key) {
            (self, Ok(self.rows[duplicate_index(self.rows, job_type, dedup_key.unwrap())].id))
        } else if self.next_id >= u64::MAX {
            (self, Err(PersistenceError::IdsExhausted))
        } else {
            (
                StoreView {
                    rows: self.rows.push(
                        self.new_row(job_type, queue, priority, payload, dedup_key, now),
                    ),
                    next_id: self.next_id + 1,
                    ..self
                },
                Ok(self.next_id),
            )
        }
    }

    /// The store and the claimed row after `worker` claims for `queue` at
    /// time `now`: the next eligible row becomes locked by `worker`, or
    /// nothing changes when no row is eligible.
    pub open spec fn claim_next(self, queue: Seq<char>, worker: nat, now: int) -> (
        StoreView,
        Option<JobView>,
    ) {
        if has_eligible(self.rows, queue, now) {
            let i = next_index(self.rows, queue, now);
            let locked = self.rows[i].locked_by(worker, now);
            (StoreView { rows: self.rows.update(i, locked), ..self }, Some(locked))
        } else {
            (self, None)
        }
    }

    /// The store after the job `id` was reported as done: its row is gone.
    pub open spec fn complete(self, id: nat) -> StoreView {
        if has_id(self.rows, id) {
            StoreView { rows: self.rows.remove(index_of(self.rows, id)), ..self }
        } else {
            self
        }
    }

    /// Whether a failure report for the job `id` is taken: the row exists and
    /// is locked.
    pub open spec fn in_flight(self, id: nat) -> bool {
        has_id(self.rows, id) && self.rows[index_of(self.rows, id)].status == JobStatus::Locked
    }

    /// The store after a failed execution of the job `id` was reported at
    /// time `now`.
    pub open spec fn fail(self, id: nat, error: Seq<char>, now: int) -> StoreView {
        if self.in_flight(id) {
            let i = index_of(self.rows, id);
            let limit = retry_limit(self.definitions, self.rows[i].job_type);
            StoreView {
                rows: self.rows.update(i, self.rows[i].after_failure(error, now, limit)),
                ..self
            }
        } else {
            self
        }
    }

    /// The store after the job `id` was given up without counting an
    /// execution.
    pub open spec fn reject(self, id: nat, error: Seq<char>) -> StoreView {
        if self.in_flight(id) {
            let i = index_of(self.rows, id);
            StoreView { rows: self.rows.update(i, self.rows[i].rejected(error)), ..self }
        } else {
            self
        }
    }

    /// The store after every stale lock was released at time `now`.
    pub open spec fn reap_stale_locks(self, threshold: int, now: int) -> StoreView {
        StoreView {
            rows: Seq::new(
                self.rows.len(),
                |i: int|
                    if is_stale(self.rows[i], threshold, now) {
                        self.rows[i].released(now)
                    } else {
                        self.rows[i]
                    },
            ),
            ..self
        }
    }
}

/// With increasing identifiers, an identifier belongs to one position only.
pub proof fn lemma_index_unique(rows: Seq<JobView>, i: int)
    requires
        ids_increasing(rows),
        0 <= i < rows.len(),
    ensures
        has_id(rows, rows[i].id),
        index_of(rows, rows[i].id) == i,
{
    let p = index_of(rows, rows[i].id);
    if p < i {
        assert(rows[p].id < rows[i].id);
    } else if i < p {
        assert(rows[i].id < rows[p].id);
    }
}

/// In a deduplicated table, a type and key belong to one live row only.
pub proof fn lemma_duplicate_unique(rows: Seq<JobView>, job_type: Seq<char>, key: Seq<u8>, i: int)
    requires
        deduplicated(rows),
        0 <= i < rows.len(),
        is_duplicate(rows[i], job_type, key),
    ensures
        has_duplicate(rows, job_type, key),
        duplicate_index(rows, job_type, key) == i,
{
    let p = duplicate_index(rows, job_type, key);
    if p < i {
        assert(rows[p].dedup_key != rows[i].dedup_key);
    } else if i < p {
        assert(rows[i].dedup_key != rows[p].dedup_key);
    }
}

/// Among rows with distinct identifiers, the row that a claim takes is
/// determined.
pub proof fn lemma_next_unique(rows: Seq<JobView>, queue: Seq<char>, now: int, i: int)
    requires
        ids_increasing(rows),
        is_next(rows, queue, now, i),
    ensures
        has_eligible(rows, queue, now),
        next_index(rows, queue, now) == i,
{
    let p = next_index(rows, queue, now);
    assert(is_next(rows, queue, now, p));
    if p != i {
        assert(rows[i].precedes(rows[p]));
        assert(rows[p].precedes(rows[i]));
        if p < i {
            assert(rows[p].id < rows[i].id);
        } else {
            assert(rows[i].id < rows[p].id);
        }
    }
}

/// The content of a vector of rows.
pub open spec fn rows_of(jobs: Seq<Job>) -> Seq<JobView> {
    jobs.map_values(|job: Job| job@)
}

/// The identifier in an answer of [`JobStore::enqueue`], as a number.
pub open spec fn id_of(outcome: Result<u64, PersistenceError>) -> Result<nat, PersistenceError> {
    match outcome {
        Ok(id) => Ok(id as nat),
        Err(e) => Err(e),
    }
}

/// The content of an optional row.
pub open spec fn row_of(job: Option<Job>) -> Option<JobView> {
    match job {
        Some(j) => Some(j@),
        None => None,
    }
}

/// What became of a job whose failure was reported.
#[derive(Clone, Copy, Debug, PartialEq, Eq, Structural)]
pub enum FailureOutcome {
    /// The job will be retried, not before the given time.
    Retry { not_before: i64 },
    /// The job has used up its retries and is failed for good.
    Exhausted,
    /// No locked row has that identifier; nothing was changed.
    NotInFlight,
}

/// The table of job rows together with the job types it serves.
#[derive(Debug)]
pub struct JobStore {
    jobs: Vec<Job>,
    next_id: u64,
    registry: Registry,
}

impl View for JobStore {
    type V = StoreView;

    closed spec fn view(&self) -> StoreView {
        StoreView {
            rows: rows_of(self.jobs@),
            next_id: self.next_id as nat,
            definitions: self.registry@,
        }
    }
}

impl JobStore {
    /// The invariant of the store.
    pub open spec fn wf(&self) -> bool {
        self@.wf()
    }

    /// An empty store that serves the job types of `registry`.
    pub fn new(registry: Registry) -> (store: JobStore)
        requires
            registry.wf(),
        ensures
            store.wf(),
            store@.rows == Seq::<JobView>::empty(),
            store@.next_id == FIRST_JOB_ID,
            store@.definitions == registry@,
    {
        let store = JobStore { jobs: Vec::new(), next_id: FIRST_JOB_ID, registry };
        assert(store@.rows =~= Seq::<JobView>::empty());
        store
    }

    /// An empty store that serves the job types of `registry` and numbers
    /// its jobs from `next_id` on, as when an earlier numbering goes on.
    pub fn with_next_id(registry: Registry, next_id: u64) -> (store: JobStore)
        requires
            registry.wf(),
        ensures
            store.wf(),
            store@.rows == Seq::<JobView>::empty(),
            store@.next_id == next_id,
            store@.definitions == registry@,
    {
        let store = JobStore { jobs: Vec::new(), next_id, registry };
        assert(store@.rows =~= Seq::<JobView>::empty());
        store
    }

    /// Rebuilds a store from rows that were kept elsewhere, with the next
    /// identifier `next_id`, to serve the job types of `registry`.
    ///
    /// The rows are taken exactly when they meet the invariant of the store:
    /// lock fields set on locked rows only, identifiers increasing and below
    /// `next_id`, live rows within the retry limit of their type, and no two
    /// live rows with the same type and deduplication key.
    pub fn restore(registry: Registry, jobs: Vec<Job>, next_id: u64) -> (restored: Option<JobStore>)
        requires
            registry.wf(),
        ensures
            restored.is_some() == (StoreView {
                rows: rows_of(jobs@),
                next_id: next_id as nat,
                definitions: registry@,
            }).wf(),
            restored matches Some(store) ==> store@ == (StoreView {
                rows: rows_of(jobs@),
                next_id: next_id as nat,
                definitions: registry@,
            }),
    {
        let ghost rows = rows_of(jobs@);
        let ghost target = StoreView { rows, next_id: next_id as nat, definitions: registry@ };
        let mut i: usize = 0;
        while i < jobs.len()
            invariant
                i <= jobs.len(),
                registry.wf(),
                rows == rows_of(jobs@),
                forall|k: int| 0 <= k < i ==> (#[trigger] rows[k]).well_formed(),
                forall|k: int| 0 <= k < i ==> (#[trigger] rows[k]).id < next_id,
                forall|k: int|
                    0 <= k < i && (#[trigger] rows[k]).is_live() ==> rows[k].attempts
                        <= retry_limit(registry@, rows[k].job_type),
                ids_increasing(rows.take(i as int)),
                deduplicated(rows.take(i as int)),
            decreases jobs.len() - i,
        {
            let job = &jobs[i];
            let locked = job.status == JobStatus::Locked;
            if locked != job.lock_holder.is_some() || locked != job.locked_at.is_some() {
                assert(!rows[i as int].well_formed());
                return None;
            }
            if job.id >= next_id {
                assert(!(rows[i as int].id < next_id));
                return None;
            }
            if job.status != JobStatus::Failed && job.attempts > registry.max_attempts(
                job.job_type.as_str(),
            ) {
                assert(rows[i as int].is_live());
                return None;
            }
            if i > 0 && jobs[i - 1].id >= job.id {
                assert(!(rows[i - 1].id < rows[i as int].id));
                return None;
            }
            if job.status != JobStatus::Failed {
                if let Some(key) = &job.dedup_key {
                    let mut k: usize = 0;
                    while k < i
                        invariant
                            k <= i < jobs.len(),
                            rows == rows_of(jobs@),
                            *job == jobs[i as int],
                            job.dedup_key == Some(*key),
                            rows[i as int].is_live(),
                            forall|a: int|
                                0 <= a < k ==> !is_duplicate(
                                    #[trigger] rows[a],
                                    rows[i as int].job_type,
                                    key@,
                                ),
                        decreases i - k,
                    {
                        let other = &jobs[k];
                        let same_key = match &other.dedup_key {
                            Some(other_key) => same_bytes(other_key, key),
                            None => false,
                        };
                        if other.status != JobStatus::Failed && other.job_type == job.job_type
                            && same_key {
                            assert(rows[k as int].is_live() && rows[i as int].is_live()
                                && rows[k as int].job_type == rows[i as int].job_type
                                && rows[k as int].dedup_key.is_some() && rows[k as int].dedup_key
                                == rows[i as int].dedup_key);
                            return None;
                        }
                        k = k + 1;
                    }
                }
            }
            proof {
                let grown = rows.take(i + 1);
                let prefix = rows.take(i as int);
                assert forall|a: int, b: int| 0 <= a < b < grown.len() implies (
                #[trigger] grown[a]).id < (#[trigger] grown[b]).id by {
                    if b < i {
                        assert(prefix[a].id < prefix[b].id);
                    } else if a + 1 < i {
                        assert(prefix[a].id < prefix[i - 1].id);
                    }
                }
                assert forall|a: int, b: int|
                    0 <= a < b < grown.len() && (#[trigger] grown[a]).is_live() && (
                    #[trigger] grown[b]).is_live() && grown[a].job_type == grown[b].job_type
                        && grown[a].dedup_key.is_some() implies grown[a].dedup_key
                    != grown[b].dedup_key by {
                    if b < i {
                        assert(prefix[a].dedup_key != prefix[b].dedup_key);
                    } else if grown[a].dedup_key == grown[b].dedup_key {
                        assert(is_duplicate(
                            rows[a],
                            rows[i as int].job_type,
                            rows[i as int].dedup_key.unwrap(),
                        ));
                    }
                }
            }
            i = i + 1;
        }
        proof {
            assert(rows.take(i as int) =~= rows);
        }
        Some(JobStore { jobs, next_id, registry })
    }

    /// The job types this store serves.
    pub fn registry(&self) -> (registry: &Registry)
        ensures
            registry@ == self@.definitions,
            self.wf() ==> registry.wf(),
    {
        &self.registry
    }

    /// All rows, in order of insertion, as they are to be kept elsewhere.
    pub fn rows(&self) -> (jobs: &Vec<Job>)
        ensures
            rows_of(jobs@) == self@.rows,
    {
        &self.jobs
    }

    /// The identifier that the next new row receives.
    pub fn next_id(&self) -> (next_id: u64)
        ensures
            next_id == self@.next_id,
    {
        self.next_id
    }

    /// The number of rows, whatever their status.
    pub fn len(&self) -> (n: usize)
        ensures
            n == self@.rows.len(),
    {
        self.jobs.len()
    }

    /// The row at position `i`, in order of insertion.
    pub fn row(&self, i: usize) -> (job: &Job)
        requires
            i < self@.rows.len(),
        ensures
            job@ == self@.rows[i as int],
    {
        &self.jobs[i]
    }

    /// Finds the position of the row with identifier `id`.
    pub fn position(&self, id: u64) -> (found: Option<usize>)
        requires
            self.wf(),
        ensures
            found.is_some() == has_id(self@.rows, id as nat),
            found matches Some(i) ==> i == index_of(self@.rows, id as nat) && i < self@.rows.len(),
    {
        let mut i: usize = 0;
        while i < self.jobs.len()
            invariant
                i <= self.jobs.len(),
                self.wf(),
                forall|k: int| 0 <= k < i ==> (#[trigger] self@.rows[k]).id != id,
            decreases self.jobs.len() - i,
        {
            if self.jobs[i].id == id {
                proof {
                    assert(self@.rows[i as int].id == id);
                    lemma_index_unique(self@.rows, i as int);
                }
                return Some(i);
            }
            i = i + 1;
        }
        None
    }

    /// Looks up the row with identifier `id`, whatever its status.
    pub fn get(&self, id: u64) -> (found: Option<&Job>)
        requires
            self.wf(),
        ensures
            found.is_some() == has_id(self@.rows, id as nat),
            found matches Some(job) ==> job@ == self@.rows[index_of(self@.rows, id as nat)],
    {
        match self.position(id) {
            Some(i) => Some(&self.jobs[i]),
            None => None,
        }
    }

    /// Finds the live row of type `job_type` whose deduplication key is `key`.
    fn find_duplicate(&self, job_type: &String, key: &Vec<u8>) -> (found: Option<usize>)
        requires
            self.wf(),
        ensures
            found.is_some() == has_duplicate(self@.rows, job_type@, key@),
            found matches Some(i) ==> i == duplicate_index(self@.rows, job_type@, key@) && i
                < self@.rows.len(),
    {
        let mut i: usize = 0;
        while i < self.jobs.len()
            invariant
                i <= self.jobs.len(),
                self.wf(),
                forall|k: int|
                    0 <= k < i ==> !is_duplicate(#[trigger] self@.rows[k], job_type@, key@),
            decreases self.jobs.len() - i,
        {
            let row = &self.jobs[i];
            let same_key = match &row.dedup_key {
                Some(k) => same_bytes(k, key),
                None => false,
            };
            if row.status != JobStatus::Failed && row.job_type == *job_type && same_key {
                proof {
                    assert(is_duplicate(self@.rows[i as int], job_type@, key@));
                    lemma_duplicate_unique(self@.rows, job_type@, key@, i as int);
                }
                return Some(i);
            }
            assert(!is_duplicate(self@.rows[i as int], job_type@, key@));
            i = i + 1;
        }
        None
    }

    /// Adds a job to the store and answers with its identifier.
    ///
    /// With a deduplication key, a job whose type and key match a live row is
    /// not added again: the store stays as it is and the answer is the
    /// identifier of that row. The only failure is running out of
    /// identifiers.
    pub fn enqueue(
        &mut self,
        job_type: &str,
        queue: &str,
        priority: i16,
        payload: Vec<u8>,
        dedup_key: Option<Vec<u8>>,
        now: i64,
    ) -> (outcome: Result<u64, PersistenceError>)
        requires
            old(self).wf(),
        ensures
            final(self).wf(),
            (final(self)@, id_of(outcome)) == old(self)@.enqueue(
                job_type@,
                queue@,
                priority as int,
                payload@,
                bytes_of(dedup_key),
                now as int,
            ),
    {
        let job_type: String = job_type.to_owned();
        let queue: String = queue.to_owned();
        if let Some(key) = &dedup_key {
            if let Some(i) = self.find_duplicate(&job_type, key) {
                return Ok(self.jobs[i].id);
            }
        }
        if self.next_id >= u64::MAX {
            return Err(PersistenceError::IdsExhausted);
        }
        let id = self.next_id;
        let job = Job {
            id,
            job_type,
            payload,
            queue,
            priority,
            created_at: now,
            status: JobStatus::Pending,
            lock_holder: None,
            locked_at: None,
            attempts: 0,
            last_error: None,
            not_before: now,
            dedup_key,
        };
        let ghost before = self@;
        self.jobs.push(job);
        self.next_id = id + 1;
        proof {
            assert(self@.rows =~= before.rows.push(job@));
            lemma_enqueue_keeps_wf(
                before,
                job_type@,
                queue@,
                priority as int,
                payload@,
                bytes_of(dedup_key),
                now as int,
            );
        }
        Ok(id)
    }

    /// Adds a job of the type that `def` describes, in the queue and with the
    /// priority that `def` declares.
    ///
    /// For a deduplicated job type the payload is the deduplication key: the
    /// job is not added again while a live row of that type carries the same
    /// payload.
    pub fn enqueue_job(&mut self, def: &JobDefinition, payload: Vec<u8>, now: i64) -> (outcome:
        Result<u64, PersistenceError>)
        requires
            old(self).wf(),
        ensures
            final(self).wf(),
            (final(self)@, id_of(outcome)) == old(self)@.enqueue(
                def@.job_type,
                def@.queue,
                def@.priority,
                payload@,
                if def.deduplicated {
                    Some(payload@)
                } else {
                    None
                },
                now as int,
            ),
    {
        let key = if def.deduplicated {
            Some(copy_bytes(&payload))
        } else {
            None
        };
        self.enqueue(def.job_type.as_str(), def.queue.as_str(), def.priority, payload, key, now)
    }

    /// Replaces the row at position `i`.
    fn put(&mut self, i: usize, job: Job)
        requires
            i < old(self)@.rows.len(),
        ensures
            final(self)@ == (StoreView {
                rows: old(self)@.rows.update(i as int, job@),
                ..old(self)@
            }),
    {
        let ghost before = self@;
        self.jobs.set(i, job);
        assert(self@.rows =~= before.rows.update(i as int, job@));
    }

    /// Claims the next job of `queue` for the worker slot `worker_id`.
    ///
    /// Among the rows of `queue` that are pending, or retryable with their
    /// backoff elapsed at `now`, the one with the highest priority is taken;
    /// among equal priorities the one inserted first. It becomes locked by
    /// `worker_id` since `now`, and a copy of it is returned. Nothing changes
    /// and `None` is returned when no row is eligible.
    pub fn claim_next(&mut self, queue: &str, worker_id: u64, now: i64) -> (claimed: Option<Job>)
        requires
            old(self).wf(),
        ensures
            final(self).wf(),
            (final(self)@, row_of(claimed)) == old(self)@.claim_next(
                queue@,
                worker_id as nat,
                now as int,
            ),
    {
        let queue: String = queue.to_owned();
        let mut best: Option<usize> = None;
        let mut i: usize = 0;
        while i < self.jobs.len()
            invariant
                i <= self.jobs.len(),
                self.wf(),
                *self == *old(self),
                best matches Some(b) ==> b < i && self@.rows[b as int].eligible(queue@, now as int),
                best matches Some(b) ==> forall|j: int|
                    0 <= j < i && j != b && (#[trigger] self@.rows[j]).eligible(queue@, now as int)
                        ==> self@.rows[b as int].precedes(self@.rows[j]),
                best.is_none() ==> forall|j: int|
                    0 <= j < i ==> !(#[trigger] self@.rows[j]).eligible(queue@, now as int),
            decreases self.jobs.len() - i,
        {
            if self.jobs[i].is_eligible(&queue, now) {
                match best {
                    None => {
                        best = Some(i);
                    },
                    Some(b) => {
                        assert(self@.rows[b as int].id != self@.rows[i as int].id);
                        if self.jobs[i].is_before(&self.jobs[b]) {
                            best = Some(i);
                        }
                    },
                }
            }
            i = i + 1;
        }
        match best {
            None => None,
            Some(b) => {
                proof {
                    assert(is_next(self@.rows, queue@, now as int, b as int));
                    lemma_next_unique(self@.rows, queue@, now as int, b as int);
                }
                let ghost before = self@;
                let mut row = self.jobs[b].duplicate();
                row.status = JobStatus::Locked;
                row.lock_holder = Some(worker_id);
                row.locked_at = Some(now);
                let claimed = row.duplicate();
                self.put(b, row);
                proof {
                    assert(row@ == before.rows[b as int].locked_by(worker_id as nat, now as int));
                    lemma_update_keeps_wf(before, b as int, row@);
                }
                Some(claimed)
            },
        }
    }

    /// Reports the job `id` as done and deletes its row. Answers whether a
    /// row with that identifier was there.
    pub fn complete(&mut self, id: u64) -> (removed: bool)
        requires
            old(self).wf(),
        ensures
            final(self).wf(),
            final(self)@ == old(self)@.complete(id as nat),
            removed == has_id(old(self)@.rows, id as nat),
    {
        match self.position(id) {
            None => false,
            Some(i) => {
                let ghost before = self@;
                self.jobs.remove(i);
                proof {
                    assert(self@.rows =~= before.rows.remove(i as int));
                    lemma_remove_keeps_wf(before, i as int);
                }
                true
            },
        }
    }

    /// Reports a failed execution of the job `id` at time `now`.
    ///
    /// The failure is counted and `error` recorded on the row. If the count
    /// now exceeds the retry limit of the job type, the row is failed for
    /// good; otherwise it becomes retryable once its backoff, which doubles
    /// with every failure, has elapsed. A report for a row that is not locked
    /// changes nothing.
    pub fn fail(&mut self, id: u64, error: &str, now: i64) -> (outcome: FailureOutcome)
        requires
            old(self).wf(),
            valid_time(now as int),
        ensures
            final(self).wf(),
            final(self)@ == old(self)@.fail(id as nat, error@, now as int),
            outcome == failure_outcome(old(self)@, id as nat, now as int),
    {
        let found = self.position(id);
        match found {
            None => FailureOutcome::NotInFlight,
            Some(i) => {
                if self.jobs[i].status != JobStatus::Locked {
                    return FailureOutcome::NotInFlight;
                }
                let ghost before = self@;
                let limit = self.registry.max_attempts(self.jobs[i].job_type.as_str());
                assert(before.rows[i as int].is_live());
                let mut row = self.jobs[i].duplicate();
                let attempts: u32 = row.attempts + 1;
                row.attempts = attempts;
                row.last_error = Some(error.to_owned());
                row.lock_holder = None;
                row.locked_at = None;
                let outcome = if attempts > limit {
                    row.status = JobStatus::Failed;
                    FailureOutcome::Exhausted
                } else {
                    proof {
                        lemma_backoff_bounded(attempts as nat);
                    }
                    let not_before: i64 = now + backoff_delay_secs(attempts);
                    row.status = JobStatus::Retryable;
                    row.not_before = not_before;
                    FailureOutcome::Retry { not_before }
                };
                self.put(i, row);
                proof {
                    assert(row@ == before.rows[i as int].after_failure(
                        error@,
                        now as int,
                        limit as nat,
                    ));
                    lemma_update_keeps_wf(before, i as int, row@);
                }
                outcome
            },
        }
    }

    /// Gives up the locked job `id` without counting an execution, as when
    /// its type is unknown or its payload cannot be decoded: the row is
    /// failed for good and `error` recorded on it. Answers whether a locked
    /// row with that identifier was there; if not, nothing changes.
    pub fn reject(&mut self, id: u64, error: &str) -> (rejected: bool)
        requires
            old(self).wf(),
        ensures
            final(self).wf(),
            final(self)@ == old(self)@.reject(id as nat, error@),
            rejected == old(self)@.in_flight(id as nat),
    {
        match self.position(id) {
            None => false,
            Some(i) => {
                if self.jobs[i].status != JobStatus::Locked {
                    return false;
                }
                let ghost before = self@;
                let mut row = self.jobs[i].duplicate();
                row.last_error = Some(error.to_owned());
                row.lock_holder = None;
                row.locked_at = None;
                row.status = JobStatus::Failed;
                self.put(i, row);
                proof {
                    assert(row@ == before.rows[i as int].rejected(error@));
                    lemma_update_keeps_wf(before, i as int, row@);
                }
                true
            },
        }
    }

    /// Releases every lock that has been held for more than `threshold`
    /// seconds at time `now`, and answers how many there were.
    ///
    /// Each such row becomes retryable and claimable at once. Its attempt
    /// count stays as it was: only a reported failure counts as an attempt.
    /// All other rows are left alone.
    pub fn reap_stale_locks(&mut self, threshold: i64, now: i64) -> (reaped: usize)
        requires
            old(self).wf(),
        ensures
            final(self).wf(),
            final(self)@ == old(self)@.reap_stale_locks(threshold as int, now as int),
            reaped == stale_count(old(self)@.rows, threshold as int, now as int),
    {
        let ghost before = self@;
        let mut reaped: usize = 0;
        let mut i: usize = 0;
        while i < self.jobs.len()
            invariant
                i <= self.jobs.len(),
                self.wf(),
                self@.rows.len() == before.rows.len(),
                self@.next_id == before.next_id,
                self@.definitions == before.definitions,
                reaped <= i,
                reaped == stale_count(before.rows.take(i as int), threshold as int, now as int),
                forall|k: int|
                    0 <= k < i ==> #[trigger] self@.rows[k] == if is_stale(
                        before.rows[k],
                        threshold as int,
                        now as int,
                    ) {
                        before.rows[k].released(now as int)
                    } else {
                        before.rows[k]
                    },
                forall|k: int|
                    i <= k < before.rows.len() ==> #[trigger] self@.rows[k] == before.rows[k],
            decreases self.jobs.len() - i,
        {
            proof {
                assert(before.rows.take(i + 1).drop_last() =~= before.rows.take(i as int));
                assert(before.rows.take(i + 1).last() == before.rows[i as int]);
            }
            let stale = match self.jobs[i].locked_at {
                Some(since) => self.jobs[i].status == JobStatus::Locked && (now as i128) - (
                since as i128) > (threshold as i128),
                None => false,
            };
            proof {
                assert(self@.rows[i as int] == before.rows[i as int]);
                assert(stale == is_stale(before.rows[i as int], threshold as int, now as int));
                assert(stale_count(before.rows.take(i + 1), threshold as int, now as int)
                    == stale_count(before.rows.take(i as int), threshold as int, now as int)
                    + if stale {
                    1nat
                } else {
                    0nat
                });
            }
            if stale {
                let ghost current = self@;
                let mut row = self.jobs[i].duplicate();
                row.status = JobStatus::Retryable;
                row.lock_holder = None;
                row.locked_at = None;
                row.not_before = now;
                self.put(i, row);
                proof {
                    assert(current.rows[i as int].is_live());
                    assert(row@ == before.rows[i as int].released(now as int));
                    lemma_update_keeps_wf(current, i as int, row@);
                }
                reaped = reaped + 1;
            }
            i = i + 1;
        }
        proof {
            assert(before.rows.take(i as int) =~= before.rows);
            assert(self@.rows =~= before.reap_stale_locks(threshold as int, now as int).rows);
        }
        reaped
    }
}

/// What [`JobStore::fail`] answers for the job `id` at time `now`.
pub open spec fn failure_outcome(store: StoreView, id: nat, now: int) -> FailureOutcome {
    if store.in_flight(id) {
        let row = store.rows[index_of(store.rows, id)];
        let limit = retry_limit(store.definitions, row.job_type);
        let after = row.after_failure(Seq::empty(), now, limit);
        if after.status == JobStatus::Failed {
            FailureOutcome::Exhausted
        } else {
            FailureOutcome::Retry { not_before: after.not_before as i64 }
        }
    } else {
        FailureOutcome::NotInFlight
    }
}

/// An enqueue keeps the invariant of the store.
pub proof fn lemma_enqueue_keeps_wf(
    store: StoreView,
    job_type: Seq<char>,
    queue: Seq<char>,
    priority: int,
    payload: Seq<u8>,
    dedup_key: Option<Seq<u8>>,
    now: int,
)
    requires
        store.wf(),
    ensures
        store.enqueue(job_type, queue, priority, payload, dedup_key, now).0.wf(),
{
    let after = store.enqueue(job_type, queue, priority, payload, dedup_key, now).0;
    if after != store {
        let row = store.new_row(job_type, queue, priority, payload, dedup_key, now);
        let last = store.rows.len() as int;
        assert(after.rows == store.rows.push(row));
        assert forall|i: int, j: int|
            0 <= i < j < after.rows.len() && (#[trigger] after.rows[i]).is_live() && (
            #[trigger] after.rows[j]).is_live() && after.rows[i].job_type == after.rows[j].job_type
                && after.rows[i].dedup_key.is_some() implies after.rows[i].dedup_key
            != after.rows[j].dedup_key by {
            if j == last {
                if after.rows[i].dedup_key == row.dedup_key {
                    assert(is_duplicate(store.rows[i], job_type, dedup_key.unwrap()));
                }
            } else {
                assert(store.rows[i].dedup_key != store.rows[j].dedup_key);
            }
        }
        assert forall|i: int, j: int| 0 <= i < j < after.rows.len() implies (
        #[trigger] after.rows[i]).id < (#[trigger] after.rows[j]).id by {
            if j < last {
                assert(store.rows[i].id < store.rows[j].id);
            } else {
                assert(store.rows[i].id < store.next_id);
            }
        }
        assert forall|i: int| 0 <= i < after.rows.len() implies (
        #[trigger] after.rows[i]).well_formed() by {
            if i < last {
                assert(store.rows[i].well_formed());
            }
        }
        assert forall|i: int| 0 <= i < after.rows.len() implies (#[trigger] after.rows[i]).id
            < after.next_id by {
            if i < last {
                assert(store.rows[i].id < store.next_id);
            }
        }
        assert forall|i: int|
            0 <= i < after.rows.len() && (
            #[trigger] after.rows[i]).is_live() implies after.rows[i].attempts <= retry_limit(
            after.definitions,
            after.rows[i].job_type,
        ) by {
            if i < last {
                assert(store.rows[i].is_live());
            }
        }
    }
}

/// The stale-lock sweep keeps the invariant of the store.
pub proof fn lemma_reap_keeps_wf(store: StoreView, threshold: int, now: int)
    requires
        store.wf(),
    ensures
        store.reap_stale_locks(threshold, now).wf(),
{
    let after = store.reap_stale_locks(threshold, now);
    assert forall|i: int, j: int|
        0 <= i < j < after.rows.len() && (#[trigger] after.rows[i]).is_live() && (
        #[trigger] after.rows[j]).is_live() && after.rows[i].job_type == after.rows[j].job_type
            && after.rows[i].dedup_key.is_some() implies after.rows[i].dedup_key
        != after.rows[j].dedup_key by {
        assert(store.rows[i].is_live() && store.rows[j].is_live());
        assert(store.rows[i].dedup_key != store.rows[j].dedup_key);
    }
    assert forall|i: int, j: int| 0 <= i < j < after.rows.len() implies (
    #[trigger] after.rows[i]).id < (#[trigger] after.rows[j]).id by {
        assert(store.rows[i].id < store.rows[j].id);
    }
    assert forall|i: int| 0 <= i < after.rows.len() implies (
    #[trigger] after.rows[i]).well_formed() by {
        assert(store.rows[i].well_formed());
    }
    assert forall|i: int| 0 <= i < after.rows.len() implies (#[trigger] after.rows[i]).id
        < after.next_id by {
        assert(store.rows[i].id < store.next_id);
    }
    assert forall|i: int|
        0 <= i < after.rows.len() && (
        #[trigger] after.rows[i]).is_live() implies after.rows[i].attempts <= retry_limit(
        after.definitions,
        after.rows[i].job_type,
    ) by {
        assert(store.rows[i].is_live());
    }
}

/// Whether `after` may take the place of `before` in a store: it is well
/// formed, keeps the identifier, type and key, stays within the retry limit
/// `limit` while live, and does not come back to life.
pub open spec fn is_successor(before: JobView, after: JobView, limit: nat) -> bool {
    &&& after.well_formed()
    &&& after.id == before.id
    &&& after.job_type == before.job_type
    &&& after.dedup_key == before.dedup_key
    &&& after.is_live() ==> before.is_live() && after.attempts <= limit
}

/// Replacing a row by a successor of it keeps the invariant of the store.
pub proof fn lemma_update_keeps_wf(store: StoreView, i: int, row: JobView)
    requires
        store.wf(),
        0 <= i < store.rows.len(),
        is_successor(store.rows[i], row, retry_limit(store.definitions, row.job_type)),
    ensures
        (StoreView { rows: store.rows.update(i, row), ..store }).wf(),
{
    let after = StoreView { rows: store.rows.update(i, row), ..store };
    assert forall|a: int, b: int|
        0 <= a < b < after.rows.len() && (#[trigger] after.rows[a]).is_live() && (
        #[trigger] after.rows[b]).is_live() && after.rows[a].job_type == after.rows[b].job_type
            && after.rows[a].dedup_key.is_some() implies after.rows[a].dedup_key
        != after.rows[b].dedup_key by {
        assert(store.rows[a].is_live() && store.rows[b].is_live());
        assert(store.rows[a].dedup_key != store.rows[b].dedup_key);
    }
    assert forall|a: int, b: int| 0 <= a < b < after.rows.len() implies (
    #[trigger] after.rows[a]).id < (#[trigger] after.rows[b]).id by {
        assert(store.rows[a].id < store.rows[b].id);
    }
    assert forall|a: int| 0 <= a < after.rows.len() implies (#[trigger] after.rows[a]).id
        < after.next_id by {
        assert(store.rows[a].id < store.next_id);
    }
    assert forall|a: int| 0 <= a < after.rows.len() implies (
    #[trigger] after.rows[a]).well_formed() by {
        assert(store.rows[a].well_formed());
    }
    assert forall|a: int|
        0 <= a < after.rows.len() && (
        #[trigger] after.rows[a]).is_live() implies after.rows[a].attempts <= retry_limit(
        after.definitions,
        after.rows[a].job_type,
    ) by {
        if a != i {
            assert(store.rows[a].is_live());
        }
    }
}

/// Deleting a row keeps the invariant of the store.
pub proof fn lemma_remove_keeps_wf(store: StoreView, i: int)
    requires
        store.wf(),
        0 <= i < store.rows.len(),
    ensures
        (StoreView { rows: store.rows.remove(i), ..store }).wf(),
{
    let after = StoreView { rows: store.rows.remove(i), ..store };
    let shift = |k: int| if k < i { k } else { k + 1 };
    assert forall|a: int| 0 <= a < after.rows.len() implies #[trigger] after.rows[a]
        == store.rows[shift(a)] by {}
    assert forall|a: int, b: int|
        0 <= a < b < after.rows.len() && (#[trigger] after.rows[a]).is_live() && (
        #[trigger] after.rows[b]).is_live() && after.rows[a].job_type == after.rows[b].job_type
            && after.rows[a].dedup_key.is_some() implies after.rows[a].dedup_key
        != after.rows[b].dedup_key by {
        assert(store.rows[shift(a)].dedup_key != store.rows[shift(b)].dedup_key);
    }
    assert forall|a: int, b: int| 0 <= a < b < after.rows.len() implies (
    #[trigger] after.rows[a]).id < (#[trigger] after.rows[b]).id by {
        assert(store.rows[shift(a)].id < store.rows[shift(b)].id);
    }
    assert forall|a: int| 0 <= a < after.rows.len() implies (#[trigger] after.rows[a]).id
        < after.next_id by {
        assert(store.rows[shift(a)].id < store.next_id);
    }
    assert forall|a: int| 0 <= a < after.rows.len() implies (
    #[trigger] after.rows[a]).well_formed() by {
        assert(store.rows[shift(a)].well_formed());
    }
    assert forall|a: int|
        0 <= a < after.rows.len() && (
        #[trigger] after.rows[a]).is_live() implies after.rows[a].attempts <= retry_limit(
        after.definitions,
        after.rows[a].job_type,
    ) by {
        assert(store.rows[shift(a)].is_live());
    }
}

} // verus!
