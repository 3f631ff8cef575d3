//! The collections of the vector store and the ids of what they hold.

use vstd::prelude::*;
use vstd::string::StringExecFns;
use crate::text::{decimal, push_decimal};

verus! {

/// Chunks of reference documents.
pub const COLLECTION_DOCUMENTS: &'static str = "documents";

/// Notes of the vault.
pub const COLLECTION_OBSIDIAN: &'static str = "obsidian";

/// Facts, preferences and context.
pub const COLLECTION_MEMORY_SEMANTIC: &'static str = "memory_semantic";

/// Learned strategies.
pub const COLLECTION_MEMORY_PROCEDURAL: &'static str = "memory_procedural";

/// Past results and plans.
pub const COLLECTION_MEMORY_EPISODIC: &'static str = "memory_episodic";

/// Sources found on the web.
pub const COLLECTION_WEB_SOURCES: &'static str = "web_sources";

/// Whether a collection exists, and how many records it holds.
#[derive(Debug, Clone)]
pub struct CollectionStatus {
    pub name: String,
    pub exists: bool,
    pub record_count: u32,
}

/// The id of a chunk: collection, document and chunk index, joined by
/// underscores.
pub open spec fn chunk_id_of(collection: Seq<char>, doc_id: Seq<char>, chunk_index: u32) -> Seq<char> {
    collection + seq!['_'] + doc_id + seq!['_'] + decimal(chunk_index as nat)
}

/// The id of the chunk `chunk_index` of a document in a collection.
pub fn chunk_id(collection: &str, doc_id: &str, chunk_index: u32) -> (id: String)
    ensures
        id@ == chunk_id_of(collection@, doc_id@, chunk_index),
{
    proof {
        reveal_strlit("_");
        assert("_"@ =~= seq!['_']);
    }
    let mut id = collection.to_owned();
    id.append("_");
    id.append(doc_id);
    id.append("_");
    push_decimal(&mut id, chunk_index as u64);
    id
}

} // verus!
