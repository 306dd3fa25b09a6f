//! The job definition registry: which job types exist, and how each is
//! scheduled.

use vstd::prelude::*;
use crate::backoff::MAX_ATTEMPTS_LIMIT;
use crate::error::ConfigurationError;
use crate::queue::DEFAULT_QUEUE;

verus! {

/// The static metadata that a job type declares.
#[derive(Clone, Debug)]
pub struct JobDefinition {
    /// Globally unique, stable name of the job type.
    pub job_type: String,
    /// The queue whose workers run jobs of this type.
    pub queue: String,
    /// Default priority of jobs of this type.
    pub priority: i16,
    /// Whether a second enqueue of a job that is still live is suppressed.
    pub deduplicated: bool,
    /// How many times a failed job of this type is retried.
    pub max_attempts: u32,
}

/// The mathematical content of a [`JobDefinition`].
pub struct JobDefinitionView {
    pub job_type: Seq<char>,
    pub queue: Seq<char>,
    pub priority: int,
    pub deduplicated: bool,
    pub max_attempts: nat,
}

impl View for JobDefinition {
    type V = JobDefinitionView;

    open spec fn view(&self) -> JobDefinitionView {
        JobDefinitionView {
            job_type: self.job_type@,
            queue: self.queue@,
            priority: self.priority as int,
            deduplicated: self.deduplicated,
            max_attempts: self.max_attempts as nat,
        }
    }
}

/// The priority of a job type that declares none.
pub const DEFAULT_PRIORITY: i16 = 0;

/// The retry limit of a job type that declares none.
pub const DEFAULT_MAX_ATTEMPTS: u32 = 5;

impl JobDefinition {
    /// A job type named `job_type` with the defaults: the default queue,
    /// priority zero, no deduplication and [`DEFAULT_MAX_ATTEMPTS`] retries.
    pub fn new(job_type: &str) -> (def: JobDefinition)
        ensures
            def@ == (JobDefinitionView {
                job_type: job_type@,
                queue: DEFAULT_QUEUE@,
                priority: DEFAULT_PRIORITY as int,
                deduplicated: false,
                max_attempts: DEFAULT_MAX_ATTEMPTS as nat,
            }),
    {
        JobDefinition {
            job_type: job_type.to_owned(),
            queue: DEFAULT_QUEUE.to_owned(),
            priority: DEFAULT_PRIORITY,
            deduplicated: false,
            max_attempts: DEFAULT_MAX_ATTEMPTS,
        }
    }

    /// The same job type, run by the workers of `queue`.
    pub fn with_queue(self, queue: &str) -> (def: JobDefinition)
        ensures
            def@ == (JobDefinitionView { queue: queue@, ..self@ }),
    {
        JobDefinition { queue: queue.to_owned(), ..self }
    }

    /// The same job type, with the priority `priority`.
    pub fn with_priority(self, priority: i16) -> (def: JobDefinition)
        ensures
            def@ == (JobDefinitionView { priority: priority as int, ..self@ }),
    {
        JobDefinition { priority, ..self }
    }

    /// The same job type, deduplicated or not.
    pub fn with_deduplication(self, deduplicated: bool) -> (def: JobDefinition)
        ensures
            def@ == (JobDefinitionView { deduplicated, ..self@ }),
    {
        JobDefinition { deduplicated, ..self }
    }

    /// The same job type, retried up to `max_attempts` times.
    pub fn with_max_attempts(self, max_attempts: u32) -> (def: JobDefinition)
        ensures
            def@ == (JobDefinitionView { max_attempts: max_attempts as nat, ..self@ }),
    {
        JobDefinition { max_attempts, ..self }
    }
}

impl JobDefinitionView {
    /// A definition can be registered if it names its type and queue and
    /// keeps its retry limit within bounds.
    pub open spec fn valid(self) -> bool {
        &&& self.job_type.len() > 0
        &&& self.queue.len() > 0
        &&& self.max_attempts <= MAX_ATTEMPTS_LIMIT
    }
}

/// A kind of job: what a type of job arguments declares about itself.
pub trait BackgroundJob {
    /// The scheduling metadata that the job type declares.
    spec fn declared() -> JobDefinitionView;

    /// The declared metadata names its type and queue and keeps its retry
    /// limit within bounds.
    proof fn declared_is_valid()
        ensures
            Self::declared().valid(),
    ;

    /// The scheduling metadata of the job type.
    fn definition() -> (def: JobDefinition)
        ensures
            def@ == Self::declared(),
    ;
}

/// Whether some definition in `defs` is named `job_type`.
pub open spec fn is_registered(defs: Seq<JobDefinitionView>, job_type: Seq<char>) -> bool {
    exists|i: int| 0 <= i < defs.len() && #[trigger] defs[i].job_type == job_type
}

/// The position of the definition named `job_type`.
pub open spec fn position_of(defs: Seq<JobDefinitionView>, job_type: Seq<char>) -> int {
    choose|i: int| 0 <= i < defs.len() && #[trigger] defs[i].job_type == job_type
}

/// The definition named `job_type`, if it is registered.
pub open spec fn definition_of(defs: Seq<JobDefinitionView>, job_type: Seq<char>) -> Option<
    JobDefinitionView,
> {
    if is_registered(defs, job_type) {
        Some(defs[position_of(defs, job_type)])
    } else {
        None
    }
}

/// The retry limit that applies to jobs of type `job_type`. A type that is
/// not registered is never retried.
pub open spec fn retry_limit(defs: Seq<JobDefinitionView>, job_type: Seq<char>) -> nat {
    match definition_of(defs, job_type) {
        Some(def) => def.max_attempts,
        None => 0,
    }
}

/// No two definitions share a job type name.
pub open spec fn distinct_types(defs: Seq<JobDefinitionView>) -> bool {
    forall|i: int, j: int|
        0 <= i < j < defs.len() ==> (#[trigger] defs[i]).job_type != (#[trigger] defs[j]).job_type
}

/// Among distinct definitions, a name belongs to one position only.
pub proof fn lemma_position_unique(defs: Seq<JobDefinitionView>, i: int)
    requires
        distinct_types(defs),
        0 <= i < defs.len(),
    ensures
        is_registered(defs, defs[i].job_type),
        position_of(defs, defs[i].job_type) == i,
        definition_of(defs, defs[i].job_type) == Some(defs[i]),
{
    let p = position_of(defs, defs[i].job_type);
    if p < i {
        assert(defs[p].job_type != defs[i].job_type);
    } else if i < p {
        assert(defs[i].job_type != defs[p].job_type);
    }
}

/// The closed set of job types known to a runner.
#[derive(Debug)]
pub struct Registry {
    defs: Vec<JobDefinition>,
}

impl View for Registry {
    type V = Seq<JobDefinitionView>;

    closed spec fn view(&self) -> Seq<JobDefinitionView> {
        self.defs@.map_values(|d: JobDefinition| d@)
    }
}

impl Registry {
    /// Every definition is valid and job type names are unique.
    pub open spec fn wf(&self) -> bool {
        &&& distinct_types(self@)
        &&& forall|i: int| 0 <= i < self@.len() ==> (#[trigger] self@[i]).valid()
    }

    /// A registry without job types.
    pub fn new() -> (registry: Registry)
        ensures
            registry.wf(),
            registry@ == Seq::<JobDefinitionView>::empty(),
    {
        Registry { defs: Vec::new() }
    }

    /// The number of registered job types.
    pub fn len(&self) -> (n: usize)
        ensures
            n == self@.len(),
    {
        self.defs.len()
    }

    /// The definition at position `i`, in registration order.
    pub fn get(&self, i: usize) -> (def: &JobDefinition)
        requires
            i < self@.len(),
        ensures
            def@ == self@[i as int],
    {
        &self.defs[i]
    }

    /// Finds the position of the definition named `job_type`.
    pub fn position(&self, job_type: &str) -> (found: Option<usize>)
        requires
            self.wf(),
        ensures
            found.is_some() == is_registered(self@, job_type@),
            found matches Some(i) ==> i == position_of(self@, job_type@) && i < self@.len(),
    {
        let name: String = job_type.to_owned();
        let mut i: usize = 0;
        while i < self.defs.len()
            invariant
                i <= self.defs.len(),
                self.wf(),
                name@ == job_type@,
                forall|k: int| 0 <= k < i ==> (#[trigger] self@[k]).job_type != job_type@,
            decreases self.defs.len() - i,
        {
            if self.defs[i].job_type == name {
                proof {
                    assert(self@[i as int].job_type == job_type@);
                    lemma_position_unique(self@, i as int);
                }
                return Some(i);
            }
            i = i + 1;
        }
        None
    }

    /// Looks up the definition named `job_type`.
    pub fn lookup(&self, job_type: &str) -> (found: Option<&JobDefinition>)
        requires
            self.wf(),
        ensures
            match found {
                Some(def) => definition_of(self@, job_type@) == Some(def@),
                None => definition_of(self@, job_type@).is_none(),
            },
    {
        match self.position(job_type) {
            Some(i) => Some(&self.defs[i]),
            None => None,
        }
    }

    /// The retry limit for jobs of type `job_type`; zero for a type that is
    /// not registered.
    pub fn max_attempts(&self, job_type: &str) -> (limit: u32)
        requires
            self.wf(),
        ensures
            limit == retry_limit(self@, job_type@),
            limit <= MAX_ATTEMPTS_LIMIT,
    {
        match self.position(job_type) {
            Some(i) => {
                assert(self@[i as int].valid());
                self.defs[i].max_attempts
            },
            None => 0,
        }
    }

    /// Adds the job type `J` with the metadata it declares. The only
    /// refusal is that of a job type name that is already taken.
    pub fn register_job_type<J: BackgroundJob>(&mut self) -> (outcome: Result<
        (),
        ConfigurationError,
    >)
        requires
            old(self).wf(),
        ensures
            final(self).wf(),
            outcome == if is_registered(old(self)@, J::declared().job_type) {
                Err::<(), ConfigurationError>(ConfigurationError::DuplicateJobType)
            } else {
                Ok::<(), ConfigurationError>(())
            },
            outcome.is_ok() ==> final(self)@ == old(self)@.push(J::declared()),
            outcome.is_err() ==> final(self)@ == old(self)@,
    {
        proof {
            J::declared_is_valid();
        }
        self.register(J::definition())
    }

    /// Adds a job type.
    ///
    /// The definition is refused, and the registry left as it was, when its
    /// job type name is empty, its queue name is empty, its retry limit is
    /// above [`MAX_ATTEMPTS_LIMIT`], or its name is already taken; the first
    /// of these that applies is reported.
    pub fn register(&mut self, def: JobDefinition) -> (outcome: Result<(), ConfigurationError>)
        requires
            old(self).wf(),
        ensures
            final(self).wf(),
            outcome == register_outcome(old(self)@, def@),
            outcome.is_ok() ==> final(self)@ == old(self)@.push(def@),
            outcome.is_err() ==> final(self)@ == old(self)@,
    {
        if def.job_type.as_str().is_empty() {
            return Err(ConfigurationError::EmptyJobType);
        }
        if def.queue.as_str().is_empty() {
            return Err(ConfigurationError::EmptyQueueName);
        }
        if def.max_attempts > MAX_ATTEMPTS_LIMIT {
            return Err(ConfigurationError::TooManyAttempts);
        }
        if self.position(def.job_type.as_str()).is_some() {
            return Err(ConfigurationError::DuplicateJobType);
        }
        let ghost before = self@;
        self.defs.push(def);
        proof {
            assert(self@ =~= before.push(def@));
            assert forall|i: int, j: int| 0 <= i < j < self@.len() implies (
            #[trigger] self@[i]).job_type != (#[trigger] self@[j]).job_type by {
                if j == before.len() {
                    assert(before[i].job_type != def@.job_type);
                } else {
                    assert(before[i].job_type != before[j].job_type);
                }
            }
        }
        Ok(())
    }
}

/// What [`Registry::register`] answers for `def` given the definitions
/// `defs` that are already there.
pub open spec fn register_outcome(defs: Seq<JobDefinitionView>, def: JobDefinitionView) -> Result<
    (),
    ConfigurationError,
> {
    if def.job_type.len() == 0 {
        Err(ConfigurationError::EmptyJobType)
    } else if def.queue.len() == 0 {
        Err(ConfigurationError::EmptyQueueName)
    } else if def.max_attempts > MAX_ATTEMPTS_LIMIT {
        Err(ConfigurationError::TooManyAttempts)
    } else if is_registered(defs, def.job_type) {
        Err(ConfigurationError::DuplicateJobType)
    } else {
        Ok(())
    }
}

} // verus!
