//! The vector store: its collections, its memory types and the errors that
//! talking to it gives.

pub mod client;
pub mod collections;
pub mod jsonl_miner;
pub mod memory;
pub mod sidecar;
