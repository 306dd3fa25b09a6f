//! The runner: the worker slots of all queues, and the stale-lock sweep
//! that they share.

use vstd::prelude::*;
use crate::error::ConfigurationError;
use crate::queue::distinct_names;
use crate::queue::is_configured;
use crate::queue::lemma_queue_unique;
use crate::queue::lemma_total_of_prefix;
use crate::queue::queue_index;
use crate::queue::QueueConfig;
use crate::queue::QueueSettingsView;
use crate::queue::total_workers;
use crate::queue::workers_of;
use crate::registry::JobDefinitionView;
use crate::registry::Registry;
use crate::store::JobStore;
use crate::store::stale_count;
use crate::worker::SlotState;
use crate::worker::WorkerSlot;
use crate::worker::WorkerSlotView;

verus! {

/// Whether some job type in `defs` uses a queue that has no worker slot in
/// `queues`.
pub open spec fn has_unserved_type(
    defs: Seq<JobDefinitionView>,
    queues: Seq<QueueSettingsView>,
) -> bool {
    exists|i: int| 0 <= i < defs.len() && workers_of(queues, (#[trigger] defs[i]).queue) == 0
}

/// The idle slots numbered from `first` on that serve the queue `name`.
pub open spec fn slots_of_queue(first: nat, name: Seq<char>, count: nat) -> Seq<WorkerSlotView> {
    Seq::new(
        count,
        |k: int|
            WorkerSlotView { worker_id: (first + k) as nat, queue: name, state: SlotState::Idle },
    )
}

/// The slots that a runner starts for `queues`: for each queue, in order of
/// configuration, as many idle slots as it has workers, numbered from zero
/// across all queues.
pub open spec fn slots_for(queues: Seq<QueueSettingsView>) -> Seq<WorkerSlotView>
    decreases queues.len(),
{
    if queues.len() == 0 {
        Seq::empty()
    } else {
        slots_for(queues.drop_last()) + slots_of_queue(
            total_workers(queues.drop_last()),
            queues.last().name,
            queues.last().num_workers,
        )
    }
}

/// A runner starts as many slots as the queues have workers.
pub proof fn lemma_slot_count(queues: Seq<QueueSettingsView>)
    ensures
        slots_for(queues).len() == total_workers(queues),
    decreases queues.len(),
{
    if queues.len() > 0 {
        lemma_slot_count(queues.drop_last());
    }
}

/// Every slot is numbered by its position, so no two slots share a number.
pub proof fn law_slots_are_numbered(queues: Seq<QueueSettingsView>, i: int)
    requires
        0 <= i < slots_for(queues).len(),
    ensures
        slots_for(queues)[i].worker_id == i,
        slots_for(queues)[i].state == SlotState::Idle,
    decreases queues.len(),
{
    lemma_slot_count(queues.drop_last());
    if i < slots_for(queues.drop_last()).len() {
        law_slots_are_numbered(queues.drop_last(), i);
    }
}

/// The number of slots in `slots` that serve the queue `name`.
pub open spec fn serving(slots: Seq<WorkerSlotView>, name: Seq<char>) -> nat
    decreases slots.len(),
{
    if slots.len() == 0 {
        0
    } else {
        serving(slots.drop_last(), name) + if slots.last().queue == name {
            1nat
        } else {
            0nat
        }
    }
}

/// Slots of two groups that serve a queue add up.
proof fn lemma_serving_adds(left: Seq<WorkerSlotView>, right: Seq<WorkerSlotView>, name: Seq<char>)
    ensures
        serving(left + right, name) == serving(left, name) + serving(right, name),
    decreases right.len(),
{
    if right.len() == 0 {
        assert(left + right =~= left);
    } else {
        assert((left + right).drop_last() =~= left + right.drop_last());
        assert((left + right).last() == right.last());
        lemma_serving_adds(left, right.drop_last(), name);
    }
}

/// The slots started for one queue all serve that queue and no other.
proof fn lemma_serving_of_queue(first: nat, queue: Seq<char>, count: nat, name: Seq<char>)
    ensures
        serving(slots_of_queue(first, queue, count), name) == if queue == name {
            count
        } else {
            0
        },
    decreases count,
{
    if count > 0 {
        assert(slots_of_queue(first, queue, count).drop_last() =~= slots_of_queue(
            first,
            queue,
            (count - 1) as nat,
        ));
        lemma_serving_of_queue(first, queue, (count - 1) as nat, name);
    }
}

/// Each queue gets exactly as many slots as it has workers, and a queue
/// that is not configured gets none.
pub proof fn law_slots_match_workers(queues: Seq<QueueSettingsView>, name: Seq<char>)
    requires
        distinct_names(queues),
    ensures
        serving(slots_for(queues), name) == workers_of(queues, name),
    decreases queues.len(),
{
    if queues.len() > 0 {
        let earlier = queues.drop_last();
        let last = queues.last();
        let last_index = queues.len() - 1;
        assert forall|i: int, j: int| 0 <= i < j < earlier.len() implies (
        #[trigger] earlier[i]).name != (#[trigger] earlier[j]).name by {
            assert(queues[i].name != queues[j].name);
        }
        law_slots_match_workers(earlier, name);
        lemma_serving_adds(
            slots_for(earlier),
            slots_of_queue(total_workers(earlier), last.name, last.num_workers),
            name,
        );
        lemma_serving_of_queue(total_workers(earlier), last.name, last.num_workers, name);
        if last.name == name {
            lemma_queue_unique(queues, last_index);
            if is_configured(earlier, name) {
                let i = queue_index(earlier, name);
                assert(queues[i].name != queues[last_index].name);
            }
        } else if is_configured(queues, name) {
            let i = queue_index(queues, name);
            assert(earlier[i].name == name);
            lemma_queue_unique(earlier, i);
        } else if is_configured(earlier, name) {
            let i = queue_index(earlier, name);
            assert(queues[i].name == name);
        }
    }
}

/// The content of a vector of slots.
pub open spec fn slot_views(slots: Seq<WorkerSlot>) -> Seq<WorkerSlotView> {
    slots.map_values(|slot: WorkerSlot| slot@)
}

/// Whether every slot has shut down.
pub open spec fn all_stopped(slots: Seq<WorkerSlotView>) -> bool {
    forall|i: int| 0 <= i < slots.len() ==> (#[trigger] slots[i]).state == SlotState::Stopped
}

/// The worker slots of a process, ready to be driven.
#[derive(Debug)]
pub struct Runner {
    slots: Vec<WorkerSlot>,
    staleness_threshold_secs: i64,
}

/// The mathematical content of a [`Runner`].
pub struct RunnerView {
    pub slots: Seq<WorkerSlotView>,
    pub staleness_threshold: int,
}

impl View for Runner {
    type V = RunnerView;

    closed spec fn view(&self) -> RunnerView {
        RunnerView {
            slots: slot_views(self.slots@),
            staleness_threshold: self.staleness_threshold_secs as int,
        }
    }
}

impl Runner {
    /// Builds the slots for `queues`, to serve the job types of `registry`.
    ///
    /// Construction is refused when a registered job type uses a queue
    /// without workers, and else when the slots cannot be numbered.
    pub fn new(
        registry: &Registry,
        queues: &QueueConfig,
        staleness_threshold_secs: i64,
    ) -> (outcome: Result<Runner, ConfigurationError>)
        requires
            registry.wf(),
            queues.wf(),
        ensures
            match outcome {
                Ok(runner) => {
                    &&& !has_unserved_type(registry@, queues@)
                    &&& total_workers(queues@) <= usize::MAX
                    &&& runner@.slots == slots_for(queues@)
                    &&& runner@.staleness_threshold == staleness_threshold_secs
                },
                Err(e) => if has_unserved_type(registry@, queues@) {
                    e == ConfigurationError::UnconfiguredQueue
                } else {
                    e == ConfigurationError::TooManySlots && total_workers(queues@) > usize::MAX
                },
            },
    {
        let mut d: usize = 0;
        while d < registry.len()
            invariant
                d <= registry@.len(),
                registry.wf(),
                queues.wf(),
                forall|k: int|
                    0 <= k < d ==> workers_of(queues@, (#[trigger] registry@[k]).queue) != 0,
            decreases registry@.len() - d,
        {
            if queues.num_workers(registry.get(d).queue.as_str()) == 0 {
                assert(workers_of(queues@, registry@[d as int].queue) == 0);
                return Err(ConfigurationError::UnconfiguredQueue);
            }
            d = d + 1;
        }
        let total = match queues.total_slots() {
            Some(total) => total,
            None => {
                return Err(ConfigurationError::TooManySlots);
            },
        };
        let mut slots: Vec<WorkerSlot> = Vec::new();
        let mut q: usize = 0;
        while q < queues.len()
            invariant
                q <= queues@.len(),
                total == total_workers(queues@),
                slot_views(slots@) == slots_for(queues@.take(q as int)),
                slots.len() == total_workers(queues@.take(q as int)),
            decreases queues@.len() - q,
        {
            let settings = queues.get(q);
            let ghost first = slots.len() as nat;
            let ghost earlier = slot_views(slots@);
            proof {
                assert(queues@.take(q + 1).drop_last() =~= queues@.take(q as int));
                assert(queues@.take(q + 1).last() == queues@[q as int]);
                lemma_total_of_prefix(queues@, q + 1);
            }
            let mut k: usize = 0;
            while k < settings.num_workers
                invariant
                    k <= settings.num_workers,
                    first + settings.num_workers <= total,
                    slots.len() == first + k,
                    slot_views(slots@) == earlier + slots_of_queue(first, settings.name@, k as nat),
                decreases settings.num_workers - k,
            {
                let ghost current = slot_views(slots@);
                let slot = WorkerSlot::new(slots.len() as u64, settings.name.as_str());
                slots.push(slot);
                proof {
                    assert(slot_views(slots@) =~= current.push(slot@));
                    assert(current.push(slot@) =~= earlier + slots_of_queue(
                        first,
                        settings.name@,
                        (k + 1) as nat,
                    ));
                }
                k = k + 1;
            }
            q = q + 1;
        }
        proof {
            assert(queues@.take(q as int) =~= queues@);
        }
        Ok(Runner { slots, staleness_threshold_secs })
    }

    /// The number of slots.
    pub fn num_slots(&self) -> (n: usize)
        ensures
            n == self@.slots.len(),
    {
        self.slots.len()
    }

    /// The slot at position `i`.
    pub fn slot(&self, i: usize) -> (slot: &WorkerSlot)
        requires
            i < self@.slots.len(),
        ensures
            slot@ == self@.slots[i as int],
    {
        &self.slots[i]
    }

    /// Hands the slots to their drivers.
    pub fn into_slots(self) -> (slots: Vec<WorkerSlot>)
        ensures
            slot_views(slots@) == self@.slots,
    {
        self.slots
    }

    /// Seconds after which a lock counts as abandoned.
    pub fn staleness_threshold_secs(&self) -> (secs: i64)
        ensures
            secs == self@.staleness_threshold,
    {
        self.staleness_threshold_secs
    }

    /// Runs the stale-lock sweep on `store` at time `now`: releases every
    /// lock older than the runner's staleness threshold, and answers how
    /// many there were.
    pub fn sweep(&self, store: &mut JobStore, now: i64) -> (reaped: usize)
        requires
            old(store).wf(),
        ensures
            final(store).wf(),
            final(store)@ == old(store)@.reap_stale_locks(self@.staleness_threshold, now as int),
            reaped == stale_count(old(store)@.rows, self@.staleness_threshold, now as int),
    {
        store.reap_stale_locks(self.staleness_threshold_secs, now)
    }
}

/// Whether every slot in `slots` has shut down, so that waiting for
/// shutdown is over.
pub fn is_shut_down(slots: &Vec<WorkerSlot>) -> (done: bool)
    ensures
        done == all_stopped(slot_views(slots@)),
{
    let mut i: usize = 0;
    while i < slots.len()
        invariant
            i <= slots.len(),
            forall|k: int|
                0 <= k < i ==> (#[trigger] slot_views(slots@)[k]).state == SlotState::Stopped,
        decreases slots.len() - i,
    {
        if !slots[i].is_stopped() {
            assert(slot_views(slots@)[i as int].state != SlotState::Stopped);
            return false;
        }
        i = i + 1;
    }
    true
}

} // verus!
