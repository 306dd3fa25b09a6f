//! The queue configuration: how many worker slots serve each queue.

use vstd::prelude::*;
use crate::error::ConfigurationError;

verus! {

/// The name of the queue that job types use unless they name another.
pub const DEFAULT_QUEUE: &'static str = "default";

/// One configured queue.
#[derive(Clone, Debug)]
pub struct QueueSettings {
    /// The name of the queue.
    pub name: String,
    /// The number of worker slots that serve it concurrently.
    pub num_workers: usize,
}

/// The mathematical content of a [`QueueSettings`].
pub struct QueueSettingsView {
    pub name: Seq<char>,
    pub num_workers: nat,
}

impl View for QueueSettings {
    type V = QueueSettingsView;

    open spec fn view(&self) -> QueueSettingsView {
        QueueSettingsView { name: self.name@, num_workers: self.num_workers as nat }
    }
}

/// Whether `queues` configures a queue named `name`.
pub open spec fn is_configured(queues: Seq<QueueSettingsView>, name: Seq<char>) -> bool {
    exists|i: int| 0 <= i < queues.len() && (#[trigger] queues[i]).name == name
}

/// The position of the queue named `name`.
pub open spec fn queue_index(queues: Seq<QueueSettingsView>, name: Seq<char>) -> int {
    choose|i: int| 0 <= i < queues.len() && (#[trigger] queues[i]).name == name
}

/// The number of worker slots of the queue named `name`; zero for a queue
/// that is not configured.
pub open spec fn workers_of(queues: Seq<QueueSettingsView>, name: Seq<char>) -> nat {
    if is_configured(queues, name) {
        queues[queue_index(queues, name)].num_workers
    } else {
        0
    }
}

/// The number of worker slots of all queues together.
pub open spec fn total_workers(queues: Seq<QueueSettingsView>) -> nat
    decreases queues.len(),
{
    if queues.len() == 0 {
        0
    } else {
        total_workers(queues.drop_last()) + queues.last().num_workers
    }
}

/// The first `n` queues have no more worker slots than all of them.
pub proof fn lemma_total_of_prefix(queues: Seq<QueueSettingsView>, n: int)
    requires
        0 <= n <= queues.len(),
    ensures
        total_workers(queues.take(n)) <= total_workers(queues),
    decreases queues.len(),
{
    if n == queues.len() {
        assert(queues.take(n) =~= queues);
    } else {
        assert(queues.drop_last().take(n) =~= queues.take(n));
        lemma_total_of_prefix(queues.drop_last(), n);
    }
}

/// No two queues share a name.
pub open spec fn distinct_names(queues: Seq<QueueSettingsView>) -> bool {
    forall|i: int, j: int|
        0 <= i < j < queues.len() ==> (#[trigger] queues[i]).name != (#[trigger] queues[j]).name
}

/// Among distinct queues, a name belongs to one position only.
pub proof fn lemma_queue_unique(queues: Seq<QueueSettingsView>, i: int)
    requires
        distinct_names(queues),
        0 <= i < queues.len(),
    ensures
        is_configured(queues, queues[i].name),
        queue_index(queues, queues[i].name) == i,
        workers_of(queues, queues[i].name) == queues[i].num_workers,
{
    let p = queue_index(queues, queues[i].name);
    if p < i {
        assert(queues[p].name != queues[i].name);
    } else if i < p {
        assert(queues[i].name != queues[p].name);
    }
}

/// What [`QueueConfig::configure_queue`] leaves behind when it accepts
/// `num_workers` slots for the queue `name`: the count of a queue that is
/// already there is replaced, a new queue is appended.
pub open spec fn configured(
    queues: Seq<QueueSettingsView>,
    name: Seq<char>,
    num_workers: nat,
) -> Seq<QueueSettingsView> {
    let settings = QueueSettingsView { name, num_workers };
    if is_configured(queues, name) {
        queues.update(queue_index(queues, name), settings)
    } else {
        queues.push(settings)
    }
}

/// The process-local mapping from queue names to worker slot counts.
#[derive(Debug)]
pub struct QueueConfig {
    queues: Vec<QueueSettings>,
}

impl View for QueueConfig {
    type V = Seq<QueueSettingsView>;

    closed spec fn view(&self) -> Seq<QueueSettingsView> {
        self.queues@.map_values(|q: QueueSettings| q@)
    }
}

impl QueueConfig {
    /// Queue names are unique and not empty, and every queue has a worker.
    pub open spec fn wf(&self) -> bool {
        &&& distinct_names(self@)
        &&& forall|i: int|
            0 <= i < self@.len() ==> (#[trigger] self@[i]).name.len() > 0 && self@[i].num_workers
                > 0
    }

    /// A configuration without queues.
    pub fn new() -> (config: QueueConfig)
        ensures
            config.wf(),
            config@ == Seq::<QueueSettingsView>::empty(),
    {
        QueueConfig { queues: Vec::new() }
    }

    /// The number of configured queues.
    pub fn len(&self) -> (n: usize)
        ensures
            n == self@.len(),
    {
        self.queues.len()
    }

    /// The queue at position `i`, in order of configuration.
    pub fn get(&self, i: usize) -> (settings: &QueueSettings)
        requires
            i < self@.len(),
        ensures
            settings@ == self@[i as int],
    {
        &self.queues[i]
    }

    /// Finds the position of the queue named `name`.
    fn position(&self, name: &String) -> (found: Option<usize>)
        requires
            self.wf(),
        ensures
            found.is_some() == is_configured(self@, name@),
            found matches Some(i) ==> i == queue_index(self@, name@) && i < self@.len(),
    {
        let mut i: usize = 0;
        while i < self.queues.len()
            invariant
                i <= self.queues.len(),
                self.wf(),
                forall|k: int| 0 <= k < i ==> (#[trigger] self@[k]).name != name@,
            decreases self.queues.len() - i,
        {
            if self.queues[i].name == *name {
                proof {
                    assert(self@[i as int].name == name@);
                    lemma_queue_unique(self@, i as int);
                }
                return Some(i);
            }
            i = i + 1;
        }
        None
    }

    /// The number of worker slots of the queue named `name`; zero for a
    /// queue that is not configured.
    pub fn num_workers(&self, name: &str) -> (n: usize)
        requires
            self.wf(),
        ensures
            n == workers_of(self@, name@),
    {
        let name: String = name.to_owned();
        match self.position(&name) {
            Some(i) => self.queues[i].num_workers,
            None => 0,
        }
    }

    /// The number of worker slots of all queues together, or `None` when
    /// that number does not fit the machine word.
    pub fn total_slots(&self) -> (total: Option<usize>)
        ensures
            match total {
                Some(n) => n == total_workers(self@),
                None => total_workers(self@) > usize::MAX,
            },
    {
        let mut total: usize = 0;
        let mut i: usize = 0;
        while i < self.queues.len()
            invariant
                i <= self.queues.len(),
                total == total_workers(self@.take(i as int)),
            decreases self.queues.len() - i,
        {
            proof {
                assert(self@.take(i + 1).drop_last() =~= self@.take(i as int));
                assert(self@.take(i + 1).last() == self@[i as int]);
                lemma_total_of_prefix(self@, i + 1);
            }
            match total.checked_add(self.queues[i].num_workers) {
                Some(sum) => {
                    total = sum;
                },
                None => {
                    return None;
                },
            }
            i = i + 1;
        }
        proof {
            assert(self@.take(i as int) =~= self@);
        }
        Some(total)
    }

    /// Gives the queue `name` the number of worker slots `num_workers`.
    ///
    /// An empty name and a count of zero are refused, in this order, and
    /// leave the configuration as it was. Configuring a queue again replaces
    /// its count.
    pub fn configure_queue(&mut self, name: &str, num_workers: usize) -> (outcome: Result<
        (),
        ConfigurationError,
    >)
        requires
            old(self).wf(),
        ensures
            final(self).wf(),
            name@.len() == 0 ==> outcome == Err::<(), ConfigurationError>(
                ConfigurationError::EmptyQueueName,
            ),
            name@.len() > 0 && num_workers == 0 ==> outcome == Err::<(), ConfigurationError>(
                ConfigurationError::NoWorkers,
            ),
            name@.len() > 0 && num_workers > 0 ==> outcome.is_ok(),
            outcome.is_ok() ==> final(self)@ == configured(old(self)@, name@, num_workers as nat),
            outcome.is_err() ==> final(self)@ == old(self)@,
    {
        if name.is_empty() {
            return Err(ConfigurationError::EmptyQueueName);
        }
        if num_workers == 0 {
            return Err(ConfigurationError::NoWorkers);
        }
        let name: String = name.to_owned();
        let ghost before = self@;
        match self.position(&name) {
            Some(i) => {
                self.queues.set(i, QueueSettings { name, num_workers });
                proof {
                    assert(self@ =~= configured(before, name@, num_workers as nat));
                    assert forall|a: int, b: int| 0 <= a < b < self@.len() implies (
                    #[trigger] self@[a]).name != (#[trigger] self@[b]).name by {
                        assert(before[a].name != before[b].name);
                    }
                    assert forall|a: int| 0 <= a < self@.len() implies (
                    #[trigger] self@[a]).name.len() > 0 && self@[a].num_workers > 0 by {
                        assert(before[a].name.len() > 0);
                    }
                }
            },
            None => {
                self.queues.push(QueueSettings { name, num_workers });
                proof {
                    assert(self@ =~= configured(before, name@, num_workers as nat));
                    assert forall|a: int, b: int| 0 <= a < b < self@.len() implies (
                    #[trigger] self@[a]).name != (#[trigger] self@[b]).name by {
                        if b < before.len() {
                            assert(before[a].name != before[b].name);
                        } else {
                            assert(before[a].name != name@);
                        }
                    }
                }
            },
        }
        Ok(())
    }

    /// Gives the default queue the number of worker slots `num_workers`.
    pub fn configure_default_queue(&mut self, num_workers: usize) -> (outcome: Result<
        (),
        ConfigurationError,
    >)
        requires
            old(self).wf(),
        ensures
            final(self).wf(),
            num_workers == 0 ==> outcome == Err::<(), ConfigurationError>(
                ConfigurationError::NoWorkers,
            ) && final(self)@ == old(self)@,
            num_workers > 0 ==> outcome.is_ok() && final(self)@ == configured(
                old(self)@,
                DEFAULT_QUEUE@,
                num_workers as nat,
            ),
    {
        proof {
            reveal_strlit("default");
        }
        self.configure_queue(DEFAULT_QUEUE, num_workers)
    }
}

} // verus!
