//! The engine of a background job system: a priority- and
//! deduplication-aware job queue with queue-scoped worker slots, bounded
//! retries with exponential backoff, stale-lock recovery, and a supervisor
//! that rebuilds the runner after infrastructure failures.
//!
//! All scheduling decisions live here as verified functions over plain
//! values. Running job bodies, sleeping, keeping the job table in a database
//! and talking to external services are left to the embedding program.

pub mod admin;
pub mod backoff;
pub mod clock;
pub mod controllers;
pub mod error;
pub mod job;
pub mod jobs;
pub mod laws;
pub mod queue;
pub mod registry;
pub mod runner;
pub mod store;
pub mod supervisor;
pub mod worker;
