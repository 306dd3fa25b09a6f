//! Laws of the job record store, stated over its mathematical content.

use vstd::prelude::*;
use crate::backoff::backoff_delay;
use crate::backoff::lemma_backoff_positive;
use crate::backoff::lemma_backoff_strictly_increasing;
use crate::error::PersistenceError;
use crate::job::JobStatus;
use crate::job::JobView;
use crate::registry::retry_limit;
use crate::store::has_duplicate;
use crate::store::has_eligible;
use crate::store::has_id;
use crate::store::ids_increasing;
use crate::store::index_of;
use crate::store::is_duplicate;
use crate::store::is_next;
use crate::store::is_stale;
use crate::store::lemma_duplicate_unique;
use crate::store::lemma_enqueue_keeps_wf;
use crate::store::lemma_next_unique;
use crate::store::lemma_reap_keeps_wf;
use crate::store::lemma_remove_keeps_wf;
use crate::store::lemma_update_keeps_wf;
use crate::store::next_index;
use crate::store::StoreView;

verus! {

/// Finds, among the first `n` rows, the eligible row that is served before
/// all other eligible ones; answers -1 when none of them is eligible.
pub proof fn lemma_best_of_prefix(rows: Seq<JobView>, queue: Seq<char>, now: int, n: int) -> (best:
    int)
    requires
        ids_increasing(rows),
        0 <= n <= rows.len(),
    ensures
        best == -1 ==> forall|j: int| 0 <= j < n ==> !(#[trigger] rows[j]).eligible(queue, now),
        best != -1 ==> 0 <= best < n && rows[best].eligible(queue, now),
        best != -1 ==> forall|j: int|
            0 <= j < n && j != best && (#[trigger] rows[j]).eligible(queue, now)
                ==> rows[best].precedes(rows[j]),
    decreases n,
{
    if n == 0 {
        -1
    } else {
        let earlier = lemma_best_of_prefix(rows, queue, now, n - 1);
        if !rows[n - 1].eligible(queue, now) {
            earlier
        } else if earlier == -1 {
            n - 1
        } else {
            assert(rows[earlier].id < rows[n - 1].id);
            if rows[n - 1].precedes(rows[earlier]) {
                n - 1
            } else {
                earlier
            }
        }
    }
}

/// Whenever some row is eligible, exactly one row is the next to be claimed.
pub proof fn lemma_next_exists(rows: Seq<JobView>, queue: Seq<char>, now: int)
    requires
        ids_increasing(rows),
        has_eligible(rows, queue, now),
    ensures
        is_next(rows, queue, now, next_index(rows, queue, now)),
{
    let best = lemma_best_of_prefix(rows, queue, now, rows.len() as int);
    assert(is_next(rows, queue, now, best));
}

/// The invariant of the store holds in every state: whatever is done to a
/// store that meets it leaves a store that meets it. In particular no two
/// live rows ever share a job type and a deduplication key, identifiers stay
/// unique, lock fields are set on locked rows only, and a row whose attempts
/// exceed the retry limit of its type is failed for good.
pub proof fn law_invariant_is_kept(
    store: StoreView,
    job_type: Seq<char>,
    queue: Seq<char>,
    priority: int,
    payload: Seq<u8>,
    dedup_key: Option<Seq<u8>>,
    worker: nat,
    id: nat,
    error: Seq<char>,
    threshold: int,
    now: int,
)
    requires
        store.wf(),
    ensures
        store.enqueue(job_type, queue, priority, payload, dedup_key, now).0.wf(),
        store.claim_next(queue, worker, now).0.wf(),
        store.complete(id).wf(),
        store.fail(id, error, now).wf(),
        store.reject(id, error).wf(),
        store.reap_stale_locks(threshold, now).wf(),
{
    lemma_enqueue_keeps_wf(store, job_type, queue, priority, payload, dedup_key, now);
    if has_eligible(store.rows, queue, now) {
        lemma_next_exists(store.rows, queue, now);
        let i = next_index(store.rows, queue, now);
        lemma_update_keeps_wf(store, i, store.rows[i].locked_by(worker, now));
    }
    if has_id(store.rows, id) {
        let i = index_of(store.rows, id);
        lemma_remove_keeps_wf(store, i);
        if store.in_flight(id) {
            let limit = retry_limit(store.definitions, store.rows[i].job_type);
            lemma_update_keeps_wf(store, i, store.rows[i].after_failure(error, now, limit));
            lemma_update_keeps_wf(store, i, store.rows[i].rejected(error));
        }
    }
    lemma_reap_keeps_wf(store, threshold, now);
}

/// Deduplication: while a live row of some type and key exists, enqueueing
/// that type under that key again adds no row and answers with the
/// identifier of the row that is there.
pub proof fn law_duplicate_enqueue_changes_nothing(
    store: StoreView,
    i: int,
    queue: Seq<char>,
    priority: int,
    payload: Seq<u8>,
    now: int,
)
    requires
        store.wf(),
        0 <= i < store.rows.len(),
        store.rows[i].is_live(),
        store.rows[i].dedup_key.is_some(),
    ensures
        store.enqueue(
            store.rows[i].job_type,
            queue,
            priority,
            payload,
            store.rows[i].dedup_key,
            now,
        ) == (store, Ok::<nat, PersistenceError>(store.rows[i].id)),
{
    let key = store.rows[i].dedup_key.unwrap();
    assert(is_duplicate(store.rows[i], store.rows[i].job_type, key));
    lemma_duplicate_unique(store.rows, store.rows[i].job_type, key, i);
}

/// Deduplication across two calls: after a deduplicated job was enqueued, a
/// second enqueue of the same type and key, whatever else it carries, leaves
/// the store as the first call left it and answers with the same identifier.
pub proof fn law_second_enqueue_is_idempotent(
    store: StoreView,
    job_type: Seq<char>,
    key: Seq<u8>,
    queue: Seq<char>,
    priority: int,
    payload: Seq<u8>,
    now: int,
    other_queue: Seq<char>,
    other_priority: int,
    other_payload: Seq<u8>,
    later: int,
)
    requires
        store.wf(),
        store.enqueue(job_type, queue, priority, payload, Some(key), now).1.is_ok(),
    ensures
        ({
            let (first, id) = store.enqueue(job_type, queue, priority, payload, Some(key), now);
            first.enqueue(job_type, other_queue, other_priority, other_payload, Some(key), later)
                == (first, id)
        }),
{
    let (first, id) = store.enqueue(job_type, queue, priority, payload, Some(key), now);
    if !has_duplicate(store.rows, job_type, key) {
        let last = store.rows.len() as int;
        assert(first.rows[last] == store.new_row(
            job_type,
            queue,
            priority,
            payload,
            Some(key),
            now,
        ));
        assert(is_duplicate(first.rows[last], job_type, key));
        lemma_enqueue_keeps_wf(store, job_type, queue, priority, payload, Some(key), now);
        lemma_duplicate_unique(first.rows, job_type, key, last);
    }
}

/// The row after `times.len()` executions that all failed, the last of them
/// reported at `times.last()`; before each execution `worker` claims it.
pub open spec fn after_failures(row: JobView, limit: nat, worker: nat, times: Seq<int>) -> JobView
    decreases times.len(),
{
    if times.len() == 0 {
        row
    } else {
        after_failures(row, limit, worker, times.drop_last()).locked_by(
            worker,
            times.last(),
        ).after_failure(Seq::empty(), times.last(), limit)
    }
}

/// Bounded retries: a fresh job whose every execution fails stays retryable
/// through its first `limit` failures and is failed for good by the one
/// after; every failure is counted once.
pub proof fn law_failing_job_is_retried_up_to_limit(
    row: JobView,
    limit: nat,
    worker: nat,
    times: Seq<int>,
)
    requires
        row.status == JobStatus::Pending,
        row.attempts == 0,
        times.len() <= limit + 1,
    ensures
        after_failures(row, limit, worker, times).attempts == times.len(),
        0 < times.len() <= limit ==> after_failures(row, limit, worker, times).status
            == JobStatus::Retryable,
        times.len() == limit + 1 ==> after_failures(row, limit, worker, times).status
            == JobStatus::Failed,
    decreases times.len(),
{
    if times.len() > 0 {
        law_failing_job_is_retried_up_to_limit(row, limit, worker, times.drop_last());
    }
}

/// A row that is failed for good is never claimed again, whatever the queue,
/// the worker and the time: a claim leaves it as it is and hands out another
/// row, if any.
pub proof fn law_failed_job_is_never_claimed(
    store: StoreView,
    i: int,
    queue: Seq<char>,
    worker: nat,
    now: int,
)
    requires
        store.wf(),
        0 <= i < store.rows.len(),
        store.rows[i].status == JobStatus::Failed,
    ensures
        !store.rows[i].eligible(queue, now),
        store.claim_next(queue, worker, now).0.rows[i] == store.rows[i],
        store.claim_next(queue, worker, now).1 matches Some(job) ==> job.id != store.rows[i].id,
{
    if has_eligible(store.rows, queue, now) {
        lemma_next_exists(store.rows, queue, now);
        let n = next_index(store.rows, queue, now);
        if n < i {
            assert(store.rows[n].id < store.rows[i].id);
        } else if i < n {
            assert(store.rows[i].id < store.rows[n].id);
        }
    }
}

/// Exclusive claims: with exactly one eligible row in a queue, the first of
/// two claims receives that row, locked, and the second receives nothing.
pub proof fn law_single_row_is_claimed_once(
    store: StoreView,
    i: int,
    queue: Seq<char>,
    first: nat,
    second: nat,
    now: int,
)
    requires
        store.wf(),
        0 <= i < store.rows.len(),
        store.rows[i].eligible(queue, now),
        forall|j: int|
            0 <= j < store.rows.len() && j != i ==> !(#[trigger] store.rows[j]).eligible(
                queue,
                now,
            ),
    ensures
        ({
            let (after, winner) = store.claim_next(queue, first, now);
            &&& winner == Some(store.rows[i].locked_by(first, now))
            &&& after.claim_next(queue, second, now) == (after, None::<JobView>)
        }),
{
    assert(is_next(store.rows, queue, now, i));
    lemma_next_unique(store.rows, queue, now, i);
    let (after, winner) = store.claim_next(queue, first, now);
    assert forall|j: int| 0 <= j < after.rows.len() implies !(#[trigger] after.rows[j]).eligible(
        queue,
        now,
    ) by {
        if j != i {
            assert(!store.rows[j].eligible(queue, now));
        }
    }
}

/// Exclusive claims in general: two claims in a row, for whatever queues,
/// workers and times, never hand out the same row.
pub proof fn law_claims_are_exclusive(
    store: StoreView,
    queue: Seq<char>,
    first: nat,
    now: int,
    other_queue: Seq<char>,
    second: nat,
    later: int,
)
    requires
        store.wf(),
    ensures
        ({
            let (after, one) = store.claim_next(queue, first, now);
            let (_, two) = after.claim_next(other_queue, second, later);
            one matches Some(a) ==> (two matches Some(b) ==> a.id != b.id)
        }),
{
    let (after, one) = store.claim_next(queue, first, now);
    if has_eligible(store.rows, queue, now) {
        lemma_next_exists(store.rows, queue, now);
        let i = next_index(store.rows, queue, now);
        assert(after.rows[i].status == JobStatus::Locked);
        assert forall|a: int, b: int| 0 <= a < b < after.rows.len() implies (
        #[trigger] after.rows[a]).id < (#[trigger] after.rows[b]).id by {
            assert(store.rows[a].id < store.rows[b].id);
        }
        if has_eligible(after.rows, other_queue, later) {
            lemma_next_exists(after.rows, other_queue, later);
            let k = next_index(after.rows, other_queue, later);
            assert(after.rows[k].eligible(other_queue, later));
            if k < i {
                assert(after.rows[k].id < after.rows[i].id);
            } else if i < k {
                assert(after.rows[i].id < after.rows[k].id);
            }
        }
    }
}

/// Claim order: the row that a claim hands out is eligible, and no other
/// eligible row of the queue has a higher priority, or the same priority and
/// an earlier insertion time.
pub proof fn law_claim_takes_best_row(
    store: StoreView,
    queue: Seq<char>,
    worker: nat,
    now: int,
    j: int,
)
    requires
        store.wf(),
        0 <= j < store.rows.len(),
        store.rows[j].eligible(queue, now),
    ensures
        store.claim_next(queue, worker, now).1 matches Some(job) && (job.priority
            > store.rows[j].priority || (job.priority == store.rows[j].priority && job.created_at
            <= store.rows[j].created_at)),
{
    lemma_next_exists(store.rows, queue, now);
    let i = next_index(store.rows, queue, now);
    if i != j {
        assert(store.rows[i].precedes(store.rows[j]));
    }
}

/// Queues are separate lanes: a claim hands out a row of its own queue and
/// leaves the rows of every other queue as they are.
pub proof fn law_claim_stays_in_queue(
    store: StoreView,
    i: int,
    queue: Seq<char>,
    worker: nat,
    now: int,
)
    requires
        store.wf(),
        0 <= i < store.rows.len(),
        store.rows[i].queue != queue,
    ensures
        store.claim_next(queue, worker, now).1 matches Some(job) ==> job.queue == queue,
        store.claim_next(queue, worker, now).0.rows[i] == store.rows[i],
{
    if has_eligible(store.rows, queue, now) {
        lemma_next_exists(store.rows, queue, now);
    }
}

/// Stale-lock recovery: a row whose lock is stale can be claimed again right
/// after the sweep, and the sweep changes no row's attempt count.
pub proof fn law_reaped_row_is_claimable(store: StoreView, i: int, threshold: int, now: int)
    requires
        store.wf(),
        0 <= i < store.rows.len(),
        is_stale(store.rows[i], threshold, now),
    ensures
        store.reap_stale_locks(threshold, now).rows[i].eligible(store.rows[i].queue, now),
        has_eligible(store.reap_stale_locks(threshold, now).rows, store.rows[i].queue, now),
        forall|k: int|
            0 <= k < store.rows.len() ==> (#[trigger] store.reap_stale_locks(
                threshold,
                now,
            ).rows[k]).attempts == store.rows[k].attempts,
{
    let after = store.reap_stale_locks(threshold, now);
    assert(after.rows[i] == store.rows[i].released(now));
}

/// Backoff: after a failure that leaves the row retryable, the row is not
/// claimable before a time strictly later than the failure; and the wait
/// after the next failure is strictly longer.
pub proof fn law_backoff_grows(
    row: JobView,
    limit: nat,
    worker: nat,
    failed_at: int,
    claimed_at: int,
    failed_again_at: int,
)
    requires
        row.attempts + 2 <= limit,
    ensures
        ({
            let once = row.after_failure(Seq::empty(), failed_at, limit);
            let twice = once.locked_by(worker, claimed_at).after_failure(
                Seq::empty(),
                failed_again_at,
                limit,
            );
            &&& once.not_before > failed_at
            &&& twice.not_before > failed_again_at
            &&& twice.not_before - failed_again_at > once.not_before - failed_at
        }),
{
    lemma_backoff_positive(row.attempts + 1);
    lemma_backoff_positive(row.attempts + 2);
    lemma_backoff_strictly_increasing(row.attempts + 1, row.attempts + 2);
}

/// Backoff and eligibility: a row that a failure left retryable is not
/// eligible at the time of the failure, and is eligible from `not_before` on.
pub proof fn law_retry_waits_for_backoff(row: JobView, limit: nat, failed_at: int, later: int)
    requires
        row.attempts + 1 <= limit,
    ensures
        ({
            let after = row.after_failure(Seq::empty(), failed_at, limit);
            &&& after.status == JobStatus::Retryable
            &&& after.not_before == failed_at + backoff_delay(row.attempts + 1)
            &&& !after.eligible(row.queue, failed_at)
            &&& after.eligible(row.queue, later) == (later >= after.not_before)
        }),
{
    lemma_backoff_positive(row.attempts + 1);
}

/// Whether every row of `before` that is still in `after` has at least the
/// attempt count it had.
pub open spec fn attempts_kept(before: Seq<JobView>, after: Seq<JobView>) -> bool {
    forall|i: int, j: int|
        0 <= i < before.len() && 0 <= j < after.len() && (#[trigger] before[i]).id == (
        #[trigger] after[j]).id ==> before[i].attempts <= after[j].attempts
}

/// Whether every identifier of `before` is still an identifier of `after`.
pub open spec fn ids_kept(before: Seq<JobView>, after: Seq<JobView>) -> bool {
    forall|i: int| 0 <= i < before.len() ==> has_id(after, (#[trigger] before[i]).id)
}

/// Rows with increasing identifiers that share an identifier are one row.
proof fn lemma_same_id_same_row(rows: Seq<JobView>, i: int, j: int)
    requires
        ids_increasing(rows),
        0 <= i < rows.len(),
        0 <= j < rows.len(),
        rows[i].id == rows[j].id,
    ensures
        i == j,
{
    if i < j {
        assert(rows[i].id < rows[j].id);
    } else if j < i {
        assert(rows[j].id < rows[i].id);
    }
}

/// A table keeps its own identifiers and attempt counts.
proof fn lemma_rows_keep_themselves(rows: Seq<JobView>)
    requires
        ids_increasing(rows),
    ensures
        ids_kept(rows, rows),
        attempts_kept(rows, rows),
{
    assert forall|i: int, j: int|
        0 <= i < rows.len() && 0 <= j < rows.len() && (#[trigger] rows[i]).id == (
        #[trigger] rows[j]).id implies rows[i].attempts <= rows[j].attempts by {
        lemma_same_id_same_row(rows, i, j);
    }
}

/// Replacing one row by a row with the same identifier and no fewer
/// attempts keeps all identifiers and all attempt counts.
proof fn lemma_update_keeps_rows(rows: Seq<JobView>, at: int, row: JobView)
    requires
        ids_increasing(rows),
        0 <= at < rows.len(),
        row.id == rows[at].id,
        row.attempts >= rows[at].attempts,
    ensures
        ids_kept(rows, rows.update(at, row)),
        attempts_kept(rows, rows.update(at, row)),
{
    let after = rows.update(at, row);
    assert forall|i: int| 0 <= i < rows.len() implies has_id(after, (#[trigger] rows[i]).id) by {
        assert(after[i].id == rows[i].id);
    }
    assert forall|i: int, j: int|
        0 <= i < rows.len() && 0 <= j < after.len() && (#[trigger] rows[i]).id == (
        #[trigger] after[j]).id implies rows[i].attempts <= after[j].attempts by {
        assert(after[j].id == rows[j].id);
        lemma_same_id_same_row(rows, i, j);
    }
}

/// An enqueue removes no row and lowers no attempt count.
pub proof fn law_enqueue_keeps_rows(
    store: StoreView,
    job_type: Seq<char>,
    queue: Seq<char>,
    priority: int,
    payload: Seq<u8>,
    dedup_key: Option<Seq<u8>>,
    now: int,
)
    requires
        store.wf(),
    ensures
        ids_kept(
            store.rows,
            store.enqueue(job_type, queue, priority, payload, dedup_key, now).0.rows,
        ),
        attempts_kept(
            store.rows,
            store.enqueue(job_type, queue, priority, payload, dedup_key, now).0.rows,
        ),
{
    let rows = store.rows;
    let after = store.enqueue(job_type, queue, priority, payload, dedup_key, now).0.rows;
    assert forall|i: int| 0 <= i < rows.len() implies has_id(after, (#[trigger] rows[i]).id) by {
        assert(after[i].id == rows[i].id);
    }
    assert forall|i: int, j: int|
        0 <= i < rows.len() && 0 <= j < after.len() && (#[trigger] rows[i]).id == (
        #[trigger] after[j]).id implies rows[i].attempts <= after[j].attempts by {
        if j < rows.len() {
            assert(after[j] == rows[j]);
            lemma_same_id_same_row(rows, i, j);
        } else {
            assert(rows[i].id < store.next_id);
        }
    }
}

/// A claim removes no row and changes no attempt count.
pub proof fn law_claim_keeps_rows(store: StoreView, queue: Seq<char>, worker: nat, now: int)
    requires
        store.wf(),
    ensures
        ids_kept(store.rows, store.claim_next(queue, worker, now).0.rows),
        attempts_kept(store.rows, store.claim_next(queue, worker, now).0.rows),
{
    if has_eligible(store.rows, queue, now) {
        lemma_next_exists(store.rows, queue, now);
        let i = next_index(store.rows, queue, now);
        lemma_update_keeps_rows(store.rows, i, store.rows[i].locked_by(worker, now));
    } else {
        lemma_rows_keep_themselves(store.rows);
    }
}

/// A failure report removes no row, also when the job fails for good, and
/// lowers no attempt count.
pub proof fn law_fail_keeps_rows(store: StoreView, id: nat, error: Seq<char>, now: int)
    requires
        store.wf(),
    ensures
        ids_kept(store.rows, store.fail(id, error, now).rows),
        attempts_kept(store.rows, store.fail(id, error, now).rows),
{
    if store.in_flight(id) {
        let i = index_of(store.rows, id);
        let limit = retry_limit(store.definitions, store.rows[i].job_type);
        lemma_update_keeps_rows(store.rows, i, store.rows[i].after_failure(error, now, limit));
    } else {
        lemma_rows_keep_themselves(store.rows);
    }
}

/// Giving a job up removes no row and changes no attempt count.
pub proof fn law_reject_keeps_rows(store: StoreView, id: nat, error: Seq<char>)
    requires
        store.wf(),
    ensures
        ids_kept(store.rows, store.reject(id, error).rows),
        attempts_kept(store.rows, store.reject(id, error).rows),
{
    if store.in_flight(id) {
        let i = index_of(store.rows, id);
        lemma_update_keeps_rows(store.rows, i, store.rows[i].rejected(error));
    } else {
        lemma_rows_keep_themselves(store.rows);
    }
}

/// The stale-lock sweep removes no row and changes no attempt count.
pub proof fn law_reap_keeps_rows(store: StoreView, threshold: int, now: int)
    requires
        store.wf(),
    ensures
        ids_kept(store.rows, store.reap_stale_locks(threshold, now).rows),
        attempts_kept(store.rows, store.reap_stale_locks(threshold, now).rows),
{
    let rows = store.rows;
    let after = store.reap_stale_locks(threshold, now).rows;
    assert forall|i: int| 0 <= i < rows.len() implies has_id(after, (#[trigger] rows[i]).id) by {
        assert(after[i].id == rows[i].id);
    }
    assert forall|i: int, j: int|
        0 <= i < rows.len() && 0 <= j < after.len() && (#[trigger] rows[i]).id == (
        #[trigger] after[j]).id implies rows[i].attempts <= after[j].attempts by {
        assert(after[j].id == rows[j].id);
        assert(after[j].attempts == rows[j].attempts);
        lemma_same_id_same_row(rows, i, j);
    }
}

/// Completion removes the completed job and no other, and changes no
/// attempt count.
pub proof fn law_complete_removes_one_row(store: StoreView, id: nat)
    requires
        store.wf(),
    ensures
        !has_id(store.complete(id).rows, id),
        forall|i: int|
            0 <= i < store.rows.len() && (#[trigger] store.rows[i]).id != id ==> has_id(
                store.complete(id).rows,
                store.rows[i].id,
            ),
        attempts_kept(store.rows, store.complete(id).rows),
{
    let rows = store.rows;
    let after = store.complete(id).rows;
    if has_id(rows, id) {
        let gone = index_of(rows, id);
        assert forall|j: int| 0 <= j < after.len() implies #[trigger] after[j] == rows[if j < gone {
            j
        } else {
            j + 1
        }] by {}
        assert forall|j: int| 0 <= j < after.len() implies (#[trigger] after[j]).id != id by {
            if after[j].id == id {
                if j < gone {
                    lemma_same_id_same_row(rows, j, gone);
                } else {
                    lemma_same_id_same_row(rows, j + 1, gone);
                }
            }
        }
        assert forall|i: int| 0 <= i < rows.len() && (#[trigger] rows[i]).id != id implies has_id(
            after,
            rows[i].id,
        ) by {
            if i < gone {
                assert(after[i].id == rows[i].id);
            } else {
                assert(after[i - 1].id == rows[i].id);
            }
        }
        assert forall|i: int, j: int|
            0 <= i < rows.len() && 0 <= j < after.len() && (#[trigger] rows[i]).id == (
            #[trigger] after[j]).id implies rows[i].attempts <= after[j].attempts by {
            if j < gone {
                lemma_same_id_same_row(rows, i, j);
            } else {
                lemma_same_id_same_row(rows, i, j + 1);
            }
        }
    } else {
        lemma_rows_keep_themselves(rows);
        assert forall|i: int| 0 <= i < rows.len() implies has_id(
            after,
            (#[trigger] rows[i]).id,
        ) by {
            assert(after[i].id == rows[i].id);
        }
    }
}

/// A claim never touches a row that is locked: whoever holds a lock keeps
/// it until the outcome is reported or the lock is released as stale.
pub proof fn law_claim_leaves_locked_rows_alone(
    store: StoreView,
    i: int,
    queue: Seq<char>,
    worker: nat,
    now: int,
)
    requires
        store.wf(),
        0 <= i < store.rows.len(),
        store.rows[i].status == JobStatus::Locked,
    ensures
        store.claim_next(queue, worker, now).0.rows[i] == store.rows[i],
{
    if has_eligible(store.rows, queue, now) {
        lemma_next_exists(store.rows, queue, now);
    }
}

} // verus!
