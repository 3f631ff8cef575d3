//! The three kinds of memory that the vector store keeps.

use vstd::prelude::*;
use vstd::string::{StrSliceExecFns, StringExecFns};
use crate::chars::uppercase_of;
use crate::session::{Claim, Session, Tension, Thesis};
use crate::text::{
    concat, decimal, first_chars, leading, push_decimal, str_eq, to_chars, trim_range, trimmed,
};
use crate::chroma::client::ChromaError;
use crate::chroma::collections::{
    COLLECTION_MEMORY_EPISODIC, COLLECTION_MEMORY_PROCEDURAL, COLLECTION_MEMORY_SEMANTIC,
};

verus! {

/// An error of the memory store.
#[derive(Debug, Clone)]
pub enum MemoryError {
    Chroma(ChromaError),
    NotFound(String),
    InvalidType(String),
}

impl MemoryError {
    /// The text of the error.
    pub open spec fn message_of(&self) -> Seq<char> {
        match *self {
            MemoryError::Chroma(inner) => "Chroma error: "@ + inner.message_of(),
            MemoryError::NotFound(id) => "Memory not found: "@ + id@,
            MemoryError::InvalidType(name) => "Invalid memory type: "@ + name@,
        }
    }

    /// The text of the error.
    pub fn message(&self) -> (text: String)
        ensures
            text@ == self.message_of(),
    {
        match self {
            MemoryError::Chroma(inner) => {
                let detail = inner.message();
                concat("Chroma error: ", detail.as_str())
            },
            MemoryError::NotFound(id) => concat("Memory not found: ", id.as_str()),
            MemoryError::InvalidType(name) => concat("Invalid memory type: ", name.as_str()),
        }
    }
}

/// A kind of memory.
#[derive(Debug, Clone, Copy, PartialEq, Eq, Structural)]
pub enum MemoryType {
    /// Facts, preferences, context.
    Semantic,
    /// Learned strategies.
    Procedural,
    /// Past results and plans.
    Episodic,
}

/// How many records each kind of memory holds.
#[derive(Debug, Clone, Copy, PartialEq, Eq, Structural)]
pub struct MemoryStats {
    pub semantic_count: u32,
    pub procedural_count: u32,
    pub episodic_count: u32,
    pub total: u32,
}

/// The name of a kind of memory.
pub open spec fn memory_name(memory_type: MemoryType) -> Seq<char> {
    match memory_type {
        MemoryType::Semantic => "semantic"@,
        MemoryType::Procedural => "procedural"@,
        MemoryType::Episodic => "episodic"@,
    }
}

/// The kind of memory that a name stands for.
pub open spec fn memory_named(name: Seq<char>) -> Option<MemoryType> {
    if name == "semantic"@ {
        Some(MemoryType::Semantic)
    } else if name == "procedural"@ {
        Some(MemoryType::Procedural)
    } else if name == "episodic"@ {
        Some(MemoryType::Episodic)
    } else {
        None
    }
}

/// The name of every kind of memory stands for that kind.
pub proof fn lemma_memory_name_round_trip(memory_type: MemoryType)
    ensures
        memory_named(memory_name(memory_type)) == Some(memory_type),
{
    reveal_strlit("semantic");
    reveal_strlit("procedural");
    reveal_strlit("episodic");
    assert("semantic"@.len() == 8);
    assert("procedural"@.len() == 10);
    assert("episodic"@[0] == 'e');
    assert("semantic"@[0] == 's');
}

impl MemoryType {
    /// The collection that holds this kind of memory.
    pub fn collection_name(&self) -> (name: &'static str)
        ensures
            name@ == match *self {
                MemoryType::Semantic => COLLECTION_MEMORY_SEMANTIC@,
                MemoryType::Procedural => COLLECTION_MEMORY_PROCEDURAL@,
                MemoryType::Episodic => COLLECTION_MEMORY_EPISODIC@,
            },
    {
        match self {
            MemoryType::Semantic => COLLECTION_MEMORY_SEMANTIC,
            MemoryType::Procedural => COLLECTION_MEMORY_PROCEDURAL,
            MemoryType::Episodic => COLLECTION_MEMORY_EPISODIC,
        }
    }

    /// The name of this kind of memory.
    pub fn as_str(&self) -> (name: &'static str)
        ensures
            name@ == memory_name(*self),
    {
        match self {
            MemoryType::Semantic => "semantic",
            MemoryType::Procedural => "procedural",
            MemoryType::Episodic => "episodic",
        }
    }

    /// The kind of memory that `s` names; an error that holds `s` where it
    /// names none.
    pub fn from_str(s: &str) -> (parsed: Result<Self, MemoryError>)
        ensures
            match memory_named(s@) {
                Some(memory_type) => parsed matches Ok(found) && found == memory_type,
                None => parsed matches Err(MemoryError::InvalidType(name)) && name@ == s@,
            },
    {
        if str_eq(s, "semantic") {
            Ok(MemoryType::Semantic)
        } else if str_eq(s, "procedural") {
            Ok(MemoryType::Procedural)
        } else if str_eq(s, "episodic") {
            Ok(MemoryType::Episodic)
        } else {
            Err(MemoryError::InvalidType(s.to_owned()))
        }
    }
}

/// The kind of memory that the name of a marker, in upper case, stands for.
pub open spec fn memory_of_marker(name: Seq<char>) -> Option<MemoryType> {
    if name == "INSIGHT"@ || name == "EVIDENCE"@ || name == "PATTERN"@ || name == "ASSUMPTION"@ {
        Some(MemoryType::Semantic)
    } else if name == "DECISION"@ || name == "RISK"@ {
        Some(MemoryType::Procedural)
    } else if name == "COUNTER"@ || name == "TENSION"@ || name == "THREAD"@ || name == "QUESTION"@ {
        Some(MemoryType::Episodic)
    } else {
        None
    }
}

/// The character is a square bracket.
pub open spec fn is_bracket(c: char) -> bool {
    c == '[' || c == ']'
}

/// The first position from `from` up to `to` at which no bracket stands, or
/// `to`.
pub open spec fn skip_brackets(chars: Seq<char>, from: int, to: int) -> int
    decreases to - from,
{
    if from < 0 || from >= to || to > chars.len() || !is_bracket(chars[from]) {
        if from < 0 || from >= to || to > chars.len() {
            to
        } else {
            from
        }
    } else {
        skip_brackets(chars, from + 1, to)
    }
}

/// The position after the last character before `to`, down to `from`, that
/// is no bracket, or `from`.
pub open spec fn skip_brackets_back(chars: Seq<char>, from: int, to: int) -> int
    decreases to - from,
{
    if from < 0 || from >= to || to > chars.len() || !is_bracket(chars[to - 1]) {
        if from < 0 || from >= to || to > chars.len() {
            from
        } else {
            to
        }
    } else {
        skip_brackets_back(chars, from, to - 1)
    }
}

/// Skipping brackets stays within the part.
proof fn lemma_skip_brackets(chars: Seq<char>, from: int, to: int)
    requires
        0 <= from <= to <= chars.len(),
    ensures
        from <= skip_brackets(chars, from, to) <= to,
        from <= skip_brackets_back(chars, from, to) <= to,
    decreases to - from,
{
    if from < to {
        if is_bracket(chars[from]) {
            lemma_skip_brackets(chars, from + 1, to);
        }
        if is_bracket(chars[to - 1]) {
            lemma_skip_brackets(chars, from, to - 1);
        }
    }
}

/// The name in a marker such as `[INSIGHT]`: the marker without the white
/// space at its two ends and, within that, without the brackets at its two
/// ends.
pub open spec fn marker_name(marker: Seq<char>) -> Seq<char> {
    let outer = trimmed(marker, 0, marker.len() as int);
    let start = skip_brackets(marker, outer.0, outer.1);
    marker.subrange(start, skip_brackets_back(marker, start, outer.1))
}

impl MemoryType {
    /// The kind of memory that the name of a marker, in upper case, stands
    /// for.
    pub fn from_marker_name(name: &str) -> (memory_type: Option<Self>)
        ensures
            memory_type == memory_of_marker(name@),
    {
        if str_eq(name, "INSIGHT") || str_eq(name, "EVIDENCE") || str_eq(name, "PATTERN") || str_eq(
            name,
            "ASSUMPTION",
        ) {
            Some(MemoryType::Semantic)
        } else if str_eq(name, "DECISION") || str_eq(name, "RISK") {
            Some(MemoryType::Procedural)
        } else if str_eq(name, "COUNTER") || str_eq(name, "TENSION") || str_eq(name, "THREAD") || str_eq(
            name,
            "QUESTION",
        ) {
            Some(MemoryType::Episodic)
        } else {
            None
        }
    }
}

/// The name in a marker.
pub fn read_marker_name(marker: &str) -> (name: String)
    ensures
        name@ == marker_name(marker@),
{
    let chars = to_chars(marker);
    let outer = trim_range(&chars, 0, chars.len());
    proof {
        lemma_skip_brackets(chars@, outer.0 as int, outer.1 as int);
    }
    let mut start: usize = outer.0;
    while start < outer.1 && (chars[start] == '[' || chars[start] == ']')
        invariant
            outer.0 <= start <= outer.1 <= chars.len(),
            skip_brackets(chars@, start as int, outer.1 as int) == skip_brackets(
                chars@,
                outer.0 as int,
                outer.1 as int,
            ),
        decreases outer.1 - start,
    {
        start += 1;
    }
    proof {
        lemma_skip_brackets(chars@, start as int, outer.1 as int);
    }
    let mut end: usize = outer.1;
    while start < end && (chars[end - 1] == '[' || chars[end - 1] == ']')
        invariant
            start <= end <= outer.1 <= chars.len(),
            skip_brackets_back(chars@, start as int, end as int) == skip_brackets_back(
                chars@,
                start as int,
                outer.1 as int,
            ),
        decreases end - start,
    {
        end -= 1;
    }
    marker.substring_char(start, end).to_owned()
}

/// The kind of memory that a marker such as `[INSIGHT]` stands for, in
/// upper or lower case; nothing for a marker that is not known.
pub fn marker_to_memory_type(marker: &str) -> (memory_type: Option<MemoryType>)
    ensures
        memory_type == memory_of_marker(uppercase_of(marker_name(marker@))),
{
    let name = read_marker_name(marker);
    let upper = name.as_str().to_uppercase();
    MemoryType::from_marker_name(upper.as_str())
}

/// What a memory was taken from.
#[derive(Debug, Clone)]
pub enum MemorySource {
    /// A claim with a marker.
    Claim { claim_id: String, marker: String },
    /// A tension without a resolution.
    Tension { tension_id: String, claim_a_id: String, claim_b_id: String },
    /// The thesis, with its confidence in millionths.
    Thesis { confidence: u32 },
}

/// A memory that is to be written to the vector store.
#[derive(Debug, Clone)]
pub struct MemoryWrite {
    pub memory_type: MemoryType,
    pub id: String,
    pub document: String,
    pub session_id: String,
    pub session_title: String,
    pub source: MemorySource,
}

/// What a memory was taken from, as plain values.
pub enum SourceModel {
    Claim { claim_id: Seq<char>, marker: Seq<char> },
    Tension { tension_id: Seq<char>, claim_a_id: Seq<char>, claim_b_id: Seq<char> },
    Thesis { confidence: u32 },
}

/// A memory that is to be written, as plain values.
pub struct WriteModel {
    pub memory_type: MemoryType,
    pub id: Seq<char>,
    pub document: Seq<char>,
    pub session_id: Seq<char>,
    pub session_title: Seq<char>,
    pub source: SourceModel,
}

impl View for MemoryWrite {
    type V = WriteModel;

    open spec fn view(&self) -> WriteModel {
        WriteModel {
            memory_type: self.memory_type,
            id: self.id@,
            document: self.document@,
            session_id: self.session_id@,
            session_title: self.session_title@,
            source: match self.source {
                MemorySource::Claim { claim_id, marker } => SourceModel::Claim {
                    claim_id: claim_id@,
                    marker: marker@,
                },
                MemorySource::Tension { tension_id, claim_a_id, claim_b_id } => SourceModel::Tension {
                    tension_id: tension_id@,
                    claim_a_id: claim_a_id@,
                    claim_b_id: claim_b_id@,
                },
                MemorySource::Thesis { confidence } => SourceModel::Thesis { confidence },
            },
        }
    }
}

/// The models of a list of memories, in order.
pub open spec fn write_models(writes: Seq<MemoryWrite>) -> Seq<WriteModel> {
    Seq::new(writes.len(), |i: int| writes[i]@)
}

/// The confidence from which a thesis is remembered: 0.5.
pub const THESIS_MEMORY_CONFIDENCE: u32 = 500_000;

/// A confidence in millionths as a whole number of hundredths, rounded to
/// the nearest; a confidence half way between two goes to the even one.
pub open spec fn confidence_percent(confidence: u32) -> nat {
    let whole = confidence as nat / 10_000;
    let rest = confidence as nat % 10_000;
    if rest > 5_000 || (rest == 5_000 && whole % 2 == 1) {
        whole + 1
    } else {
        whole
    }
}

/// What closes the document of every memory: the title of the session it is
/// from.
pub open spec fn from_session(title: Seq<char>) -> Seq<char> {
    " -- from session \""@ + title + "\""@
}

/// The memory of a claim with a marker that stands for a kind of memory.
pub open spec fn claim_memory(session_id: Seq<char>, title: Seq<char>, claim: Claim) -> Option<WriteModel> {
    match claim.marker {
        None => None,
        Some(marker) => match memory_of_marker(uppercase_of(marker_name(marker@))) {
            None => None,
            Some(memory_type) => Some(
                WriteModel {
                    memory_type,
                    id: session_id + "::"@ + claim.id@,
                    document: marker@ + " "@ + claim.content@ + from_session(title),
                    session_id,
                    session_title: title,
                    source: SourceModel::Claim { claim_id: claim.id@, marker: marker@ },
                },
            ),
        },
    }
}

/// The memory of a tension without a resolution.
pub open spec fn tension_memory(session_id: Seq<char>, title: Seq<char>, tension: Tension) -> Option<
    WriteModel,
> {
    if tension.resolution is Some {
        None
    } else {
        Some(
            WriteModel {
                memory_type: MemoryType::Episodic,
                id: session_id + "::tension::"@ + tension.id@,
                document: "[TENSION] Unresolved: "@ + tension.description@ + from_session(title),
                session_id,
                session_title: title,
                source: SourceModel::Tension {
                    tension_id: tension.id@,
                    claim_a_id: tension.claim_a_id@,
                    claim_b_id: tension.claim_b_id@,
                },
            },
        )
    }
}

/// The memory of a thesis whose confidence is 0.5 or more.
pub open spec fn thesis_memory(session_id: Seq<char>, title: Seq<char>, thesis: Option<Thesis>) -> Option<
    WriteModel,
> {
    match thesis {
        None => None,
        Some(t) => if t.confidence >= THESIS_MEMORY_CONFIDENCE {
            Some(
                WriteModel {
                    memory_type: MemoryType::Semantic,
                    id: session_id + "::thesis"@,
                    document: "Thesis (confidence: "@ + decimal(confidence_percent(t.confidence))
                        + "%): "@ + t.content@ + from_session(title),
                    session_id,
                    session_title: title,
                    source: SourceModel::Thesis { confidence: t.confidence },
                },
            )
        } else {
            None
        },
    }
}

/// The memories of the claims, in the order of the claims.
pub open spec fn claim_memories(session_id: Seq<char>, title: Seq<char>, claims: Seq<Claim>) -> Seq<
    WriteModel,
>
    decreases claims.len(),
{
    if claims.len() == 0 {
        Seq::empty()
    } else {
        let before = claim_memories(session_id, title, claims.drop_last());
        match claim_memory(session_id, title, claims.last()) {
            Some(write) => before.push(write),
            None => before,
        }
    }
}

/// The memories of the tensions, in the order of the tensions.
pub open spec fn tension_memories(session_id: Seq<char>, title: Seq<char>, tensions: Seq<Tension>) -> Seq<
    WriteModel,
>
    decreases tensions.len(),
{
    if tensions.len() == 0 {
        Seq::empty()
    } else {
        let before = tension_memories(session_id, title, tensions.drop_last());
        match tension_memory(session_id, title, tensions.last()) {
            Some(write) => before.push(write),
            None => before,
        }
    }
}

/// All that a session gives to remember: its marked claims, its open
/// tensions and its thesis, in this order.
pub open spec fn session_memories(session: Session) -> Seq<WriteModel> {
    let id = session.id@;
    let title = session.title@;
    claim_memories(id, title, session.claims@) + tension_memories(id, title, session.tensions@) + (
    match thesis_memory(id, title, session.thesis) {
        Some(write) => seq![write],
        None => Seq::empty(),
    })
}

/// The text after which the title of the session follows.
fn push_from_session(document: &mut String, title: &str)
    ensures
        final(document)@ == old(document)@ + from_session(title@),
{
    document.append(" -- from session \"");
    document.append(title);
    document.append("\"");
    assert(final(document)@ =~= old(document)@ + from_session(title@));
}

/// The memory of a claim, if it carries a marker that stands for a kind of
/// memory.
pub fn remember_claim(session_id: &str, title: &str, claim: &Claim) -> (write: Option<MemoryWrite>)
    ensures
        match claim_memory(session_id@, title@, *claim) {
            Some(model) => write matches Some(w) && w@ == model,
            None => write is None,
        },
{
    let marker = match &claim.marker {
        Some(marker) => marker,
        None => {
            return None;
        },
    };
    let memory_type = match marker_to_memory_type(marker.as_str()) {
        Some(memory_type) => memory_type,
        None => {
            return None;
        },
    };
    let mut id = session_id.to_owned();
    id.append("::");
    id.append(claim.id.as_str());
    let mut document = marker.clone();
    document.append(" ");
    document.append(claim.content.as_str());
    push_from_session(&mut document, title);
    Some(
        MemoryWrite {
            memory_type,
            id,
            document,
            session_id: session_id.to_owned(),
            session_title: title.to_owned(),
            source: MemorySource::Claim { claim_id: claim.id.clone(), marker: marker.clone() },
        },
    )
}

/// The memory of a tension, if it has no resolution.
pub fn remember_tension(session_id: &str, title: &str, tension: &Tension) -> (write: Option<MemoryWrite>)
    ensures
        match tension_memory(session_id@, title@, *tension) {
            Some(model) => write matches Some(w) && w@ == model,
            None => write is None,
        },
{
    if tension.resolution.is_some() {
        return None;
    }
    let mut id = session_id.to_owned();
    id.append("::tension::");
    id.append(tension.id.as_str());
    let mut document = "[TENSION] Unresolved: ".to_owned();
    document.append(tension.description.as_str());
    push_from_session(&mut document, title);
    Some(
        MemoryWrite {
            memory_type: MemoryType::Episodic,
            id,
            document,
            session_id: session_id.to_owned(),
            session_title: title.to_owned(),
            source: MemorySource::Tension {
                tension_id: tension.id.clone(),
                claim_a_id: tension.claim_a_id.clone(),
                claim_b_id: tension.claim_b_id.clone(),
            },
        },
    )
}

/// A confidence in millionths as a whole number of hundredths, rounded to
/// the nearest, half way to the even one.
pub fn round_percent(confidence: u32) -> (percent: u32)
    ensures
        percent == confidence_percent(confidence),
{
    let whole: u32 = confidence / 10_000;
    let rest: u32 = confidence % 10_000;
    if rest > 5_000 || (rest == 5_000 && whole % 2 == 1) {
        whole + 1
    } else {
        whole
    }
}

/// The memory of the thesis of a session, if its confidence is 0.5 or more.
pub fn remember_thesis(session_id: &str, title: &str, thesis: &Option<Thesis>) -> (write: Option<
    MemoryWrite,
>)
    ensures
        match thesis_memory(session_id@, title@, *thesis) {
            Some(model) => write matches Some(w) && w@ == model,
            None => write is None,
        },
{
    let thesis = match thesis {
        Some(thesis) => thesis,
        None => {
            return None;
        },
    };
    if thesis.confidence < THESIS_MEMORY_CONFIDENCE {
        return None;
    }
    let id = concat(session_id, "::thesis");
    let mut document = "Thesis (confidence: ".to_owned();
    push_decimal(&mut document, round_percent(thesis.confidence) as u64);
    document.append("%): ");
    document.append(thesis.content.as_str());
    push_from_session(&mut document, title);
    Some(
        MemoryWrite {
            memory_type: MemoryType::Semantic,
            id,
            document,
            session_id: session_id.to_owned(),
            session_title: title.to_owned(),
            source: MemorySource::Thesis { confidence: thesis.confidence },
        },
    )
}

/// All that a session gives to remember: a memory for each claim whose
/// marker stands for a kind of memory, one for each tension without a
/// resolution, and one for a thesis with a confidence of 0.5 or more.
pub fn plan_session_memories(session: &Session) -> (writes: Vec<MemoryWrite>)
    ensures
        write_models(writes@) == session_memories(*session),
{
    let id = session.id.as_str();
    let title = session.title.as_str();
    let mut writes: Vec<MemoryWrite> = Vec::new();
    let mut i: usize = 0;
    assert(session.claims@.take(0) =~= Seq::<Claim>::empty());
    assert(write_models(writes@) =~= Seq::<WriteModel>::empty());
    while i < session.claims.len()
        invariant
            i <= session.claims.len(),
            id@ == session.id@,
            title@ == session.title@,
            write_models(writes@) == claim_memories(id@, title@, session.claims@.take(i as int)),
        decreases session.claims.len() - i,
    {
        proof {
            assert(session.claims@.take(i + 1).drop_last() =~= session.claims@.take(i as int));
            assert(session.claims@.take(i + 1).last() == session.claims@[i as int]);
        }
        match remember_claim(id, title, &session.claims[i]) {
            Some(write) => {
                let ghost before = writes@;
                writes.push(write);
                assert(write_models(writes@) =~= write_models(before).push(write@));
            },
            None => {},
        }
        i += 1;
    }
    assert(session.claims@.take(session.claims.len() as int) =~= session.claims@);
    let ghost from_claims = write_models(writes@);
    let mut k: usize = 0;
    assert(session.tensions@.take(0) =~= Seq::<Tension>::empty());
    assert(write_models(writes@) =~= from_claims + Seq::<WriteModel>::empty());
    while k < session.tensions.len()
        invariant
            k <= session.tensions.len(),
            id@ == session.id@,
            title@ == session.title@,
            write_models(writes@) == from_claims + tension_memories(
                id@,
                title@,
                session.tensions@.take(k as int),
            ),
        decreases session.tensions.len() - k,
    {
        proof {
            assert(session.tensions@.take(k + 1).drop_last() =~= session.tensions@.take(k as int));
            assert(session.tensions@.take(k + 1).last() == session.tensions@[k as int]);
        }
        match remember_tension(id, title, &session.tensions[k]) {
            Some(write) => {
                let ghost before = writes@;
                writes.push(write);
                assert(write_models(writes@) =~= write_models(before).push(write@));
                assert(write_models(writes@) =~= from_claims + tension_memories(
                    id@,
                    title@,
                    session.tensions@.take(k + 1),
                ));
            },
            None => {},
        }
        k += 1;
    }
    assert(session.tensions@.take(session.tensions.len() as int) =~= session.tensions@);
    match remember_thesis(id, title, &session.thesis) {
        Some(write) => {
            let ghost before = writes@;
            writes.push(write);
            assert(write_models(writes@) =~= write_models(before) + seq![write@]);
        },
        None => {
            assert(write_models(writes@) =~= write_models(writes@) + Seq::<WriteModel>::empty());
        },
    }
    writes
}

/// The most characters of an artifact that are remembered.
pub const ARTIFACT_CONTENT_CHARS: usize = 8_000;

/// A file of a session that is to be written to the vector store.
#[derive(Debug, Clone)]
pub struct ArtifactMemory {
    pub memory_type: MemoryType,
    pub id: String,
    pub document: String,
}

/// What the document of an artifact begins with, by the kind of memory.
pub open spec fn artifact_prefix(memory_type: MemoryType) -> Seq<char> {
    match memory_type {
        MemoryType::Semantic => "[ARTIFACT:SEMANTIC]"@,
        MemoryType::Procedural => "[ARTIFACT:PROCEDURAL]"@,
        MemoryType::Episodic => "[ARTIFACT:EPISODIC]"@,
    }
}

/// The id under which an artifact of a session is remembered.
pub open spec fn artifact_id(session_id: Seq<char>, filename: Seq<char>) -> Seq<char> {
    session_id + "::artifact::"@ + filename
}

/// The document of an artifact: the prefix of its kind of memory, the first
/// 8,000 characters of its content, its name and its session.
pub open spec fn artifact_document(
    session_id: Seq<char>,
    filename: Seq<char>,
    content: Seq<char>,
    memory_type: MemoryType,
) -> Seq<char> {
    artifact_prefix(memory_type) + " "@ + leading(content, ARTIFACT_CONTENT_CHARS as nat)
        + " -- artifact '"@ + filename + "' from session "@ + session_id
}

/// The memory of a file of a session, under the kind of memory that the
/// caller chose for it.
pub fn remember_artifact(session_id: &str, filename: &str, content: &str, memory_type: MemoryType) -> (memory:
    ArtifactMemory)
    ensures
        memory.memory_type == memory_type,
        memory.id@ == artifact_id(session_id@, filename@),
        memory.document@ == artifact_document(session_id@, filename@, content@, memory_type),
{
    let mut id = session_id.to_owned();
    id.append("::artifact::");
    id.append(filename);
    let prefix: &'static str = match memory_type {
        MemoryType::Semantic => "[ARTIFACT:SEMANTIC]",
        MemoryType::Procedural => "[ARTIFACT:PROCEDURAL]",
        MemoryType::Episodic => "[ARTIFACT:EPISODIC]",
    };
    let kept = first_chars(content, ARTIFACT_CONTENT_CHARS);
    let mut document = prefix.to_owned();
    document.append(" ");
    document.append(kept.as_str());
    document.append(" -- artifact '");
    document.append(filename);
    document.append("' from session ");
    document.append(session_id);
    ArtifactMemory { memory_type, id, document }
}

} // verus!
