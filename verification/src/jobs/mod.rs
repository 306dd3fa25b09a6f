//! The job types that this crate defines.

pub mod sync_updates_feed;
pub mod update_default_version;
