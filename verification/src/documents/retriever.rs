//! The reference documents of a session.

use vstd::prelude::*;
use vstd::string::StringExecFns;
use crate::seqs::lemma_replace_at;
use crate::text::{concat, decimal, push_decimal};
use crate::chroma::client::ChromaError;
use crate::documents::chunker::{
    Chunk, ChunkedDocument, ChunkerError, DocumentHandling, DocumentPersistence,
};

verus! {

/// An error of the retriever.
#[derive(Debug, Clone)]
pub enum RetrieverError {
    NotFound(String),
    Chunker(ChunkerError),
    NotInitialized,
    InvalidSessionId,
    EmbeddingFailed(String),
    ChromaError(String),
}

impl RetrieverError {
    /// The text of the error.
    pub open spec fn message_of(&self) -> Seq<char> {
        match *self {
            RetrieverError::NotFound(id) => "Document not found: "@ + id@,
            RetrieverError::Chunker(inner) => "Chunker error: "@ + inner.message_of(),
            RetrieverError::NotInitialized => "Store not initialized"@,
            RetrieverError::InvalidSessionId => "Invalid session ID"@,
            RetrieverError::EmbeddingFailed(detail) => "Embedding generation failed: "@ + detail@,
            RetrieverError::ChromaError(detail) => "Chroma error: "@ + detail@,
        }
    }

    /// The text of the error.
    pub fn message(&self) -> (text: String)
        ensures
            text@ == self.message_of(),
    {
        match self {
            RetrieverError::NotFound(id) => concat("Document not found: ", id.as_str()),
            RetrieverError::Chunker(inner) => {
                let detail = inner.message();
                concat("Chunker error: ", detail.as_str())
            },
            RetrieverError::NotInitialized => "Store not initialized".to_owned(),
            RetrieverError::InvalidSessionId => "Invalid session ID".to_owned(),
            RetrieverError::EmbeddingFailed(detail) => concat(
                "Embedding generation failed: ",
                detail.as_str(),
            ),
            RetrieverError::ChromaError(detail) => concat("Chroma error: ", detail.as_str()),
        }
    }

    /// The retriever's error for an error of the vector store client: it
    /// keeps the text.
    pub fn from_chroma(error: &ChromaError) -> (converted: Self)
        ensures
            converted matches RetrieverError::ChromaError(detail) && detail@ == error.message_of(),
    {
        RetrieverError::ChromaError(error.message())
    }
}

/// What is known of a reference document.
#[derive(Debug, Clone)]
pub struct ReferenceDocument {
    pub id: String,
    pub filename: String,
    pub path: String,
    pub total_tokens: u32,
    pub loaded_tokens: u32,
    pub handling: DocumentHandling,
    pub persistence: DocumentPersistence,
    pub chunk_count: u32,
}

/// A document in the store.
#[derive(Debug)]
pub struct StoredDocument {
    pub document: ChunkedDocument,
    pub persistence: DocumentPersistence,
}

/// The documents of one session, in the order in which they were added.
#[derive(Debug)]
pub struct SessionDocuments {
    pub session_id: String,
    pub documents: Vec<StoredDocument>,
}

/// The reference documents of all sessions.
///
/// A session stands in the store from its first document on, also when its
/// documents are removed again. Of several sessions with one id, or several
/// documents of a session with one id, the first is the one that is found.
#[derive(Debug)]
pub struct DocumentStore {
    pub sessions: Vec<SessionDocuments>,
}

/// The position of the first session with the id `id`.
pub open spec fn session_position(sessions: Seq<SessionDocuments>, id: Seq<char>) -> Option<int>
    decreases sessions.len(),
{
    if sessions.len() == 0 {
        None
    } else if sessions[0].session_id@ == id {
        Some(0int)
    } else {
        match session_position(sessions.drop_first(), id) {
            Some(i) => Some(i + 1),
            None => None,
        }
    }
}

/// The position of the first document with the id `id`.
pub open spec fn document_position(documents: Seq<StoredDocument>, id: Seq<char>) -> Option<int>
    decreases documents.len(),
{
    if documents.len() == 0 {
        None
    } else if documents[0].document.id@ == id {
        Some(0int)
    } else {
        match document_position(documents.drop_first(), id) {
            Some(i) => Some(i + 1),
            None => None,
        }
    }
}

/// A position that is found lies in the list, and the session there has the
/// id.
pub proof fn lemma_session_position(sessions: Seq<SessionDocuments>, id: Seq<char>)
    ensures
        session_position(sessions, id) matches Some(i) ==> 0 <= i < sessions.len()
            && sessions[i].session_id@ == id,
    decreases sessions.len(),
{
    if sessions.len() > 0 && sessions[0].session_id@ != id {
        lemma_session_position(sessions.drop_first(), id);
    }
}

/// A position that is found lies in the list, and the document there has the
/// id.
pub proof fn lemma_document_position(documents: Seq<StoredDocument>, id: Seq<char>)
    ensures
        document_position(documents, id) matches Some(i) ==> 0 <= i < documents.len()
            && documents[i].document.id@ == id,
    decreases documents.len(),
{
    if documents.len() > 0 && documents[0].document.id@ != id {
        lemma_document_position(documents.drop_first(), id);
    }
}

/// The sum of the token estimates of the chunks.
pub open spec fn chunk_tokens(chunks: Seq<Chunk>) -> nat
    decreases chunks.len(),
{
    if chunks.len() == 0 {
        0
    } else {
        chunk_tokens(chunks.drop_last()) + chunks.last().token_count as nat
    }
}

/// What a reference says of a stored document.
///
/// The loaded tokens are the sum of the estimates of the chunks, at most the
/// greatest `u32`; the chunk count keeps its low 32 bits.
pub open spec fn describes(reference: ReferenceDocument, stored: StoredDocument) -> bool {
    &&& reference.id@ == stored.document.id@
    &&& reference.filename@ == stored.document.filename@
    &&& reference.path@ == stored.document.path@
    &&& reference.total_tokens == stored.document.total_tokens
    &&& reference.loaded_tokens == (if chunk_tokens(stored.document.chunks@) > u32::MAX {
        u32::MAX
    } else {
        chunk_tokens(stored.document.chunks@) as u32
    })
    &&& reference.handling == stored.document.handling
    &&& reference.persistence == stored.persistence
    &&& reference.chunk_count == (stored.document.chunks@.len() % 0x1_0000_0000) as u32
}

/// The reference of a stored document.
pub fn reference_of(stored: &StoredDocument) -> (reference: ReferenceDocument)
    ensures
        describes(reference, *stored),
{
    let chunks = &stored.document.chunks;
    let mut sum: u128 = 0;
    let mut i: usize = 0;
    assert(chunks@.take(0) =~= Seq::<Chunk>::empty());
    while i < chunks.len()
        invariant
            i <= chunks.len(),
            sum == chunk_tokens(chunks@.take(i as int)),
            sum <= i * 0xffff_ffff,
        decreases chunks.len() - i,
    {
        proof {
            assert(chunks@.take(i + 1).drop_last() =~= chunks@.take(i as int));
            assert(i * 0xffff_ffff + 0xffff_ffff == (i + 1) * 0xffff_ffff) by (nonlinear_arith);
            assert(i * 0xffff_ffff <= 0xffff_ffff_ffff_ffff * 0xffff_ffff) by (nonlinear_arith)
                requires
                    0 <= i <= 0xffff_ffff_ffff_ffff,
            ;
        }
        sum = sum + chunks[i].token_count as u128;
        i += 1;
    }
    assert(chunks@.take(chunks.len() as int) =~= chunks@);
    let loaded_tokens: u32 = if sum > u32::MAX as u128 {
        u32::MAX
    } else {
        sum as u32
    };
    ReferenceDocument {
        id: stored.document.id.clone(),
        filename: stored.document.filename.clone(),
        path: stored.document.path.clone(),
        total_tokens: stored.document.total_tokens,
        loaded_tokens,
        handling: stored.document.handling,
        persistence: stored.persistence,
        chunk_count: (chunks.len() as u64 % 0x1_0000_0000) as u32,
    }
}

/// The position of the first session with the id `id`.
pub fn find_session(sessions: &Vec<SessionDocuments>, id: &str) -> (found: Option<usize>)
    ensures
        match session_position(sessions@, id@) {
            Some(i) => found == Some(i as usize) && 0 <= i < sessions.len(),
            None => found is None,
        },
{
    let wanted = id.to_owned();
    let mut i: usize = 0;
    proof {
        lemma_session_position(sessions@, id@);
        assert(sessions@.subrange(0, sessions.len() as int) =~= sessions@);
    }
    while i < sessions.len()
        invariant
            i <= sessions.len(),
            wanted@ == id@,
            session_position(sessions@, id@) == match session_position(
                sessions@.subrange(i as int, sessions.len() as int),
                id@,
            ) {
                Some(k) => Some(k + i),
                None => None,
            },
        decreases sessions.len() - i,
    {
        let ghost rest = sessions@.subrange(i as int, sessions.len() as int);
        proof {
            assert(rest[0] == sessions[i as int]);
            assert(rest.drop_first() =~= sessions@.subrange(i + 1, sessions.len() as int));
        }
        if sessions[i].session_id == wanted {
            return Some(i);
        }
        i += 1;
    }
    None
}

/// The position of the first document with the id `id`.
pub fn find_document(documents: &Vec<StoredDocument>, id: &str) -> (found: Option<usize>)
    ensures
        match document_position(documents@, id@) {
            Some(i) => found == Some(i as usize) && 0 <= i < documents.len(),
            None => found is None,
        },
{
    let wanted = id.to_owned();
    let mut i: usize = 0;
    proof {
        lemma_document_position(documents@, id@);
        assert(documents@.subrange(0, documents.len() as int) =~= documents@);
    }
    while i < documents.len()
        invariant
            i <= documents.len(),
            wanted@ == id@,
            document_position(documents@, id@) == match document_position(
                documents@.subrange(i as int, documents.len() as int),
                id@,
            ) {
                Some(k) => Some(k + i),
                None => None,
            },
        decreases documents.len() - i,
    {
        let ghost rest = documents@.subrange(i as int, documents.len() as int);
        proof {
            assert(rest[0] == documents[i as int]);
            assert(rest.drop_first() =~= documents@.subrange(i + 1, documents.len() as int));
        }
        if documents[i].document.id == wanted {
            return Some(i);
        }
        i += 1;
    }
    None
}

/// Sets the store up, unless it is set up.
pub fn ensure_initialized(store: &mut Option<DocumentStore>)
    ensures
        *final(store) is Some,
        *old(store) is Some ==> *final(store) == *old(store),
        *old(store) is None ==> final(store).unwrap().sessions@.len() == 0,
{
    if store.is_none() {
        *store = Some(DocumentStore { sessions: Vec::new() });
    }
}

/// A copy of a chunk.
pub fn copy_chunk(chunk: &Chunk) -> (copy: Chunk)
    ensures
        copy@ == chunk@,
        copy.content@ == chunk.content@,
        copy.index == chunk.index,
        copy.start_pos == chunk.start_pos,
        copy.end_pos == chunk.end_pos,
        copy.token_count == chunk.token_count,
{
    Chunk {
        index: chunk.index,
        content: chunk.content.clone(),
        start_pos: chunk.start_pos,
        end_pos: chunk.end_pos,
        token_count: chunk.token_count,
        section: match &chunk.section {
            Some(heading) => Some(heading.clone()),
            None => None,
        },
    }
}

/// The text that tells of a chunk that a document does not have.
pub open spec fn missing_chunk_text(chunk_index: u32) -> Seq<char> {
    "Chunk "@ + decimal(chunk_index as nat) + " not found"@
}

/// What looking a chunk up gives.
pub enum ChunkLookup {
    /// The store is not set up.
    NotInitialized,
    /// No session has the id.
    NoSession,
    /// The session has no document with the id.
    NoDocument,
    /// The document has no chunk at the index.
    NoChunk,
    /// The chunk stands at these positions: session, document, chunk.
    Found(int, int, int),
}

/// What looking the chunk `chunk_index` of a document of a session up gives.
pub open spec fn chunk_lookup(
    store: Option<DocumentStore>,
    session_id: Seq<char>,
    doc_id: Seq<char>,
    chunk_index: u32,
) -> ChunkLookup {
    match store {
        None => ChunkLookup::NotInitialized,
        Some(s) => match session_position(s.sessions@, session_id) {
            None => ChunkLookup::NoSession,
            Some(i) => match document_position(s.sessions@[i].documents@, doc_id) {
                None => ChunkLookup::NoDocument,
                Some(j) => if chunk_index < s.sessions@[i].documents@[j].document.chunks@.len() {
                    ChunkLookup::Found(i, j, chunk_index as int)
                } else {
                    ChunkLookup::NoChunk
                },
            },
        },
    }
}

/// A chunk of a document of a session.
///
/// Fails where the store is not set up, and with what was not found: the
/// session, the document, or the chunk.
pub fn get_chunk(store: &Option<DocumentStore>, session_id: &str, doc_id: &str, chunk_index: u32) -> (found:
    Result<Chunk, RetrieverError>)
    ensures
        match chunk_lookup(*store, session_id@, doc_id@, chunk_index) {
            ChunkLookup::NotInitialized => found matches Err(RetrieverError::NotInitialized),
            ChunkLookup::NoSession => found matches Err(RetrieverError::NotFound(what)) && what@
                == session_id@,
            ChunkLookup::NoDocument => found matches Err(RetrieverError::NotFound(what)) && what@
                == doc_id@,
            ChunkLookup::NoChunk => found matches Err(RetrieverError::NotFound(what)) && what@
                == missing_chunk_text(chunk_index),
            ChunkLookup::Found(i, j, k) => found matches Ok(chunk) && chunk@
                == store.unwrap().sessions@[i].documents@[j].document.chunks@[k]@,
        },
{
    let sessions = match store {
        Some(s) => &s.sessions,
        None => {
            return Err(RetrieverError::NotInitialized);
        },
    };
    let documents = match find_session(sessions, session_id) {
        Some(i) => &sessions[i].documents,
        None => {
            return Err(RetrieverError::NotFound(session_id.to_owned()));
        },
    };
    let chunks = match find_document(documents, doc_id) {
        Some(j) => &documents[j].document.chunks,
        None => {
            return Err(RetrieverError::NotFound(doc_id.to_owned()));
        },
    };
    if (chunk_index as usize) < chunks.len() {
        Ok(copy_chunk(&chunks[chunk_index as usize]))
    } else {
        let mut what = "Chunk ".to_owned();
        push_decimal(&mut what, chunk_index as u64);
        what.append(" not found");
        Err(RetrieverError::NotFound(what))
    }
}

/// The references of the documents of a session, in the order in which the
/// documents were added; none for a session that the store does not hold.
pub fn list_references(store: &Option<DocumentStore>, session_id: &str) -> (listed: Result<
    Vec<ReferenceDocument>,
    RetrieverError,
>)
    ensures
        *store is None <==> listed is Err,
        listed is Err ==> listed matches Err(RetrieverError::NotInitialized),
        listed matches Ok(references) ==> match session_position(
            store.unwrap().sessions@,
            session_id@,
        ) {
            None => references@.len() == 0,
            Some(i) => {
                let documents = store.unwrap().sessions@[i].documents@;
                &&& references@.len() == documents.len()
                &&& forall|j: int|
                    0 <= j < documents.len() ==> describes(#[trigger] references@[j], documents[j])
            },
        },
{
    let sessions = match store {
        Some(s) => &s.sessions,
        None => {
            return Err(RetrieverError::NotInitialized);
        },
    };
    let mut references: Vec<ReferenceDocument> = Vec::new();
    match find_session(sessions, session_id) {
        None => {},
        Some(i) => {
            let documents = &sessions[i].documents;
            let mut j: usize = 0;
            while j < documents.len()
                invariant
                    j <= documents.len(),
                    references.len() == j,
                    forall|k: int| 0 <= k < j ==> describes(#[trigger] references@[k], documents@[k]),
                decreases documents.len() - j,
            {
                references.push(reference_of(&documents[j]));
                j += 1;
            }
        },
    }
    Ok(references)
}

/// The documents of a session after `stored` was entered: in the place of
/// the first document with its id, or at the end.
pub open spec fn documents_with(documents: Seq<StoredDocument>, stored: StoredDocument) -> Seq<
    StoredDocument,
> {
    match document_position(documents, stored.document.id@) {
        Some(j) => documents.update(j, stored),
        None => documents.push(stored),
    }
}

/// Enters a document into the store, under a session, and gives its
/// reference. A document of the session with the same id is replaced; a
/// session that the store does not hold is begun.
pub fn add_document(
    store: &mut Option<DocumentStore>,
    session_id: &str,
    document: ChunkedDocument,
    persistence: DocumentPersistence,
) -> (added: Result<ReferenceDocument, RetrieverError>)
    ensures
        *old(store) is None <==> added is Err,
        added is Err ==> *final(store) is None && added matches Err(RetrieverError::NotInitialized),
        added matches Ok(reference) ==> {
            let stored = StoredDocument { document, persistence };
            let before = old(store).unwrap().sessions@;
            let after = final(store).unwrap().sessions@;
            &&& *final(store) is Some
            &&& describes(reference, stored)
            &&& match session_position(before, session_id@) {
                Some(i) => after.len() == before.len() && after[i].session_id@ == session_id@
                    && after[i].documents@ == documents_with(before[i].documents@, stored)
                    && forall|k: int| 0 <= k < before.len() && k != i ==> after[k] == before[k],
                None => after.len() == before.len() + 1 && after[before.len() as int].session_id@
                    == session_id@ && after[before.len() as int].documents@ == seq![stored]
                    && forall|k: int| 0 <= k < before.len() ==> after[k] == before[k],
            }
        },
{
    let mut sessions = match store.take() {
        Some(s) => s.sessions,
        None => {
            return Err(RetrieverError::NotInitialized);
        },
    };
    let stored = StoredDocument { document, persistence };
    let reference = reference_of(&stored);
    let ghost before = sessions@;
    match find_session(&sessions, session_id) {
        Some(i) => {
            let session = sessions.remove(i);
            let mut documents = session.documents;
            match find_document(&documents, stored.document.id.as_str()) {
                Some(j) => {
                    documents.set(j, stored);
                },
                None => {
                    documents.push(stored);
                },
            }
            let changed = SessionDocuments { session_id: session.session_id, documents };
            proof {
                lemma_session_position(before, session_id@);
                lemma_replace_at(before, i as int, changed);
            }
            sessions.insert(i, changed);
        },
        None => {
            let mut documents: Vec<StoredDocument> = Vec::new();
            documents.push(stored);
            assert(documents@ =~= seq![stored]);
            sessions.push(SessionDocuments { session_id: session_id.to_owned(), documents });
        },
    }
    *store = Some(DocumentStore { sessions });
    Ok(reference)
}

/// Takes a document of a session out of the store. Nothing changes where the
/// session or the document is not there.
pub fn remove_document(store: &mut Option<DocumentStore>, session_id: &str, doc_id: &str) -> (removed:
    Result<(), RetrieverError>)
    ensures
        *old(store) is None <==> removed is Err,
        removed is Err ==> *final(store) is None && removed matches Err(RetrieverError::NotInitialized),
        removed is Ok ==> {
            let before = old(store).unwrap().sessions@;
            let after = final(store).unwrap().sessions@;
            &&& *final(store) is Some
            &&& after.len() == before.len()
            &&& match session_position(before, session_id@) {
                Some(i) => after[i].session_id@ == session_id@ && after[i].documents@
                    == (match document_position(before[i].documents@, doc_id@) {
                    Some(j) => before[i].documents@.remove(j),
                    None => before[i].documents@,
                }) && forall|k: int| 0 <= k < before.len() && k != i ==> after[k] == before[k],
                None => after == before,
            }
        },
{
    let mut sessions = match store.take() {
        Some(s) => s.sessions,
        None => {
            return Err(RetrieverError::NotInitialized);
        },
    };
    let ghost before = sessions@;
    match find_session(&sessions, session_id) {
        Some(i) => {
            let session = sessions.remove(i);
            let mut documents = session.documents;
            match find_document(&documents, doc_id) {
                Some(j) => {
                    documents.remove(j);
                },
                None => {},
            }
            let changed = SessionDocuments { session_id: session.session_id, documents };
            proof {
                lemma_session_position(before, session_id@);
                lemma_replace_at(before, i as int, changed);
            }
            sessions.insert(i, changed);
        },
        None => {},
    }
    *store = Some(DocumentStore { sessions });
    Ok(())
}

/// The documents that are not ephemeral, in order.
pub open spec fn lasting(documents: Seq<StoredDocument>) -> Seq<StoredDocument> {
    documents.filter(|stored: StoredDocument| stored.persistence != DocumentPersistence::Ephemeral)
}

/// Takes the ephemeral documents of a session out of the store.
pub fn clear_ephemeral(store: &mut Option<DocumentStore>, session_id: &str)
    ensures
        *old(store) is None ==> *final(store) is None,
        *old(store) is Some ==> {
            let before = old(store).unwrap().sessions@;
            let after = final(store).unwrap().sessions@;
            &&& *final(store) is Some
            &&& after.len() == before.len()
            &&& match session_position(before, session_id@) {
                Some(i) => after[i].session_id@ == session_id@ && after[i].documents@ == lasting(
                    before[i].documents@,
                ) && forall|k: int| 0 <= k < before.len() && k != i ==> after[k] == before[k],
                None => after == before,
            }
        },
{
    let mut sessions = match store.take() {
        Some(s) => s.sessions,
        None => {
            return ;
        },
    };
    let ghost before = sessions@;
    match find_session(&sessions, session_id) {
        Some(i) => {
            let session = sessions.remove(i);
            let mut documents = session.documents;
            let ghost all = documents@;
            let ghost keep = |stored: StoredDocument| stored.persistence != DocumentPersistence::Ephemeral;
            let mut kept: Vec<StoredDocument> = Vec::new();
            let mut count: usize = 0;
            let ghost total = documents.len();
            proof {
                crate::seqs::lemma_filter_take_none(all, keep);
            }
            while documents.len() > 0
                invariant
                    keep == (|stored: StoredDocument|
                        stored.persistence != DocumentPersistence::Ephemeral),
                    count + documents.len() == total,
                    total == all.len(),
                    documents@ == all.subrange(count as int, total as int),
                    kept@ == all.take(count as int).filter(keep),
                decreases documents.len(),
            {
                proof {
                    crate::seqs::lemma_filter_take_step(all, keep, count as int);
                    assert(documents@[0] == all[count as int]);
                    assert(documents@.remove(0) =~= all.subrange(count + 1, total as int));
                }
                let stored = documents.remove(0);
                match stored.persistence {
                    DocumentPersistence::Ephemeral => {},
                    _ => {
                        kept.push(stored);
                    },
                }
                count += 1;
            }
            let changed = SessionDocuments { session_id: session.session_id, documents: kept };
            proof {
                crate::seqs::lemma_take_all(all);
                lemma_session_position(before, session_id@);
                lemma_replace_at(before, i as int, changed);
            }
            sessions.insert(i, changed);
        },
        None => {},
    }
    *store = Some(DocumentStore { sessions });
}

/// Takes a session and all its documents out of the store.
pub fn clear_session(store: &mut Option<DocumentStore>, session_id: &str)
    ensures
        *old(store) is None ==> *final(store) is None,
        *old(store) is Some ==> *final(store) is Some && final(store).unwrap().sessions@
            == (match session_position(old(store).unwrap().sessions@, session_id@) {
            Some(i) => old(store).unwrap().sessions@.remove(i),
            None => old(store).unwrap().sessions@,
        }),
{
    let mut sessions = match store.take() {
        Some(s) => s.sessions,
        None => {
            return ;
        },
    };
    match find_session(&sessions, session_id) {
        Some(i) => {
            sessions.remove(i);
        },
        None => {},
    }
    *store = Some(DocumentStore { sessions });
}

} // verus!
