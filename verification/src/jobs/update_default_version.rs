//! The job that recomputes the default version of a crate.

use vstd::prelude::*;
use crate::queue::DEFAULT_QUEUE;
use crate::registry::BackgroundJob;
use crate::registry::DEFAULT_MAX_ATTEMPTS;
use crate::registry::JobDefinition;
use crate::registry::JobDefinitionView;

verus! {

/// The job type name.
pub const JOB_NAME: &'static str = "update_default_version";

/// Default versions are brought up to date ahead of ordinary work.
pub const PRIORITY: i16 = 80;

/// One pending update per crate is enough.
pub const DEDUPLICATED: bool = true;

/// The arguments of the job: the crate whose default version is recomputed.
#[derive(Clone, Copy, Debug, PartialEq, Eq, Structural)]
pub struct UpdateDefaultVersion {
    crate_id: i32,
}

impl View for UpdateDefaultVersion {
    type V = int;

    closed spec fn view(&self) -> int {
        self.crate_id as int
    }
}

impl UpdateDefaultVersion {
    /// The job for the crate `crate_id`.
    pub fn new(crate_id: i32) -> (job: UpdateDefaultVersion)
        ensures
            job@ == crate_id,
    {
        UpdateDefaultVersion { crate_id }
    }

    /// The crate whose default version is recomputed.
    pub fn crate_id(&self) -> (crate_id: i32)
        ensures
            crate_id == self@,
    {
        self.crate_id
    }
}

impl BackgroundJob for UpdateDefaultVersion {
    open spec fn declared() -> JobDefinitionView {
        JobDefinitionView {
            job_type: JOB_NAME@,
            queue: DEFAULT_QUEUE@,
            priority: PRIORITY as int,
            deduplicated: DEDUPLICATED,
            max_attempts: DEFAULT_MAX_ATTEMPTS as nat,
        }
    }

    proof fn declared_is_valid() {
        reveal_strlit("update_default_version");
        reveal_strlit("default");
    }

    fn definition() -> (def: JobDefinition) {
        JobDefinition::new(JOB_NAME).with_priority(PRIORITY).with_deduplication(DEDUPLICATED)
    }
}

} // verus!
