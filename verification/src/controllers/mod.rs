//! The values that the HTTP endpoints around the job engine exchange.

pub mod docs;
pub mod trustpub;
