//! Reference documents: how they are handled, how they are cut into chunks
//! and which files a listing shows.

pub mod chunker;
pub mod embeddings;
pub mod listing;
pub mod retriever;
