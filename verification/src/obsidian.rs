//! The note vault: what is read out of a note, and how notes are found.

pub mod indexer;
pub mod query;
pub mod vault;
pub mod watcher;
