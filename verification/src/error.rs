//! The error taxonomy of the job engine.

use vstd::prelude::*;

verus! {

/// A registration or queue setup that the runner refuses to start with.
#[derive(Clone, Copy, Debug, PartialEq, Eq, Structural)]
pub enum ConfigurationError {
    /// The job type name is empty.
    EmptyJobType,
    /// The queue name is empty.
    EmptyQueueName,
    /// Another definition already uses this job type name.
    DuplicateJobType,
    /// The retry limit is above the largest one supported.
    TooManyAttempts,
    /// A queue was configured with zero worker slots.
    NoWorkers,
    /// A registered job type names a queue that no worker slot serves.
    UnconfiguredQueue,
    /// The configured queues need more worker slots than can be numbered.
    TooManySlots,
}

/// The record store could not carry out an operation.
#[derive(Clone, Copy, Debug, PartialEq, Eq, Structural)]
pub enum PersistenceError {
    /// Every job identifier has been handed out.
    IdsExhausted,
}

} // verus!
