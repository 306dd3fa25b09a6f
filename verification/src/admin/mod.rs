//! Decisions of the administrative commands.

pub mod render_readmes;
