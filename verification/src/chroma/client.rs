//! What can go wrong between the client and the vector store.

use vstd::prelude::*;
use crate::text::concat;

verus! {

/// An error of the vector store client.
#[derive(Debug, Clone)]
pub enum ChromaError {
    Http(String),
    CollectionNotFound(String),
    ServerUnavailable,
    InvalidInput(String),
    Deserialize(String),
}

impl ChromaError {
    /// The text of the error.
    pub open spec fn message_of(&self) -> Seq<char> {
        match *self {
            ChromaError::Http(detail) => "Chroma HTTP error: "@ + detail@,
            ChromaError::CollectionNotFound(name) => "Collection not found: "@ + name@,
            ChromaError::ServerUnavailable => "Chroma server not available"@,
            ChromaError::InvalidInput(detail) => "Invalid input: "@ + detail@,
            ChromaError::Deserialize(detail) => "Deserialization error: "@ + detail@,
        }
    }

    /// The text of the error.
    pub fn message(&self) -> (text: String)
        ensures
            text@ == self.message_of(),
    {
        match self {
            ChromaError::Http(detail) => concat("Chroma HTTP error: ", detail.as_str()),
            ChromaError::CollectionNotFound(name) => concat("Collection not found: ", name.as_str()),
            ChromaError::ServerUnavailable => "Chroma server not available".to_owned(),
            ChromaError::InvalidInput(detail) => concat("Invalid input: ", detail.as_str()),
            ChromaError::Deserialize(detail) => concat("Deserialization error: ", detail.as_str()),
        }
    }
}

} // verus!
