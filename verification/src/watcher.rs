//! What a change in a session directory calls for.
//!
//! The watcher itself is not here: it hands over the name of the file that
//! changed and the session that it read, and carries out what these
//! functions decide.

use vstd::prelude::*;
use vstd::utf8::{encode_utf8, encode_utf8_decode_utf8};
use crate::chroma::memory::MemoryType;
use crate::seqs::text_views;
use crate::text::{
    TextOrder, concat, lemma_before_transitive, lemma_bytes_order, lemma_not_before_itself, str_eq,
    text_before, text_order,
};
use crate::context::budget::{ContextBudget, ThresholdStatus, status_of};
use crate::session::{Claim, Session, SessionStatus, Tension};

verus! {

/// An error of the watcher.
#[derive(Debug, Clone)]
pub enum WatcherError {
    /// An error of the file watcher, by its text.
    Notify(String),
    /// An error of the operating system, by its text.
    Io(String),
    Session(String),
}

impl WatcherError {
    /// The text of the error.
    pub open spec fn message_of(&self) -> Seq<char> {
        match *self {
            WatcherError::Notify(detail) => "Watcher error: "@ + detail@,
            WatcherError::Io(detail) => "IO error: "@ + detail@,
            WatcherError::Session(detail) => "Session error: "@ + detail@,
        }
    }

    /// The text of the error.
    pub fn message(&self) -> (text: String)
        ensures
            text@ == self.message_of(),
    {
        match self {
            WatcherError::Notify(detail) => concat("Watcher error: ", detail.as_str()),
            WatcherError::Io(detail) => concat("IO error: ", detail.as_str()),
            WatcherError::Session(detail) => concat("Session error: ", detail.as_str()),
        }
    }
}

/// A change of the stored session.
#[derive(Debug, Clone)]
pub struct SessionUpdatedEvent {
    pub session_id: String,
    pub path: String,
    pub change_type: String,
}

/// A budget that crossed a threshold.
#[derive(Debug, Clone)]
pub struct BudgetAlertPayload {
    pub session_id: String,
    pub status: String,
    pub percentage: u8,
    pub used: u32,
    pub total: u32,
}

/// A file of a session directory whose change calls for something.
#[derive(Debug, Clone, Copy, PartialEq, Eq, Structural)]
pub enum WatchedFile {
    /// The stored session: tell the front end, check the budget, extract
    /// markers.
    Session,
    /// The state of a run: index it as episodic memory.
    State,
    /// The scratchpad: index it as episodic memory.
    Scratchpad,
    /// Any other file: nothing.
    Other,
}

/// The kind of a file, by its name.
pub open spec fn watched_file_of(filename: Seq<char>) -> WatchedFile {
    if filename == "session.json"@ {
        WatchedFile::Session
    } else if filename == "state.json"@ {
        WatchedFile::State
    } else if filename == "scratchpad.md"@ {
        WatchedFile::Scratchpad
    } else {
        WatchedFile::Other
    }
}

/// The kind of a file that changed, by its name.
pub fn classify_file(filename: &str) -> (kind: WatchedFile)
    ensures
        kind == watched_file_of(filename@),
{
    if str_eq(filename, "session.json") {
        WatchedFile::Session
    } else if str_eq(filename, "state.json") {
        WatchedFile::State
    } else if str_eq(filename, "scratchpad.md") {
        WatchedFile::Scratchpad
    } else {
        WatchedFile::Other
    }
}

/// The name of a threshold status in an alert.
pub open spec fn status_name_of(status: ThresholdStatus) -> Seq<char> {
    match status {
        ThresholdStatus::Normal => "normal"@,
        ThresholdStatus::AutoCompress => "auto_compress"@,
        ThresholdStatus::WarnUser => "warn_user"@,
        ThresholdStatus::ForceCompress => "force_compress"@,
    }
}

/// The name of a threshold status in an alert.
pub fn status_name(status: ThresholdStatus) -> (name: &'static str)
    ensures
        name@ == status_name_of(status),
{
    match status {
        ThresholdStatus::Normal => "normal",
        ThresholdStatus::AutoCompress => "auto_compress",
        ThresholdStatus::WarnUser => "warn_user",
        ThresholdStatus::ForceCompress => "force_compress",
    }
}

/// The alert that the budget of a session calls for: none while its usage is
/// normal.
pub fn budget_alert(session_id: &str, budget: &ContextBudget) -> (alert: Option<BudgetAlertPayload>)
    requires
        budget.used_sum() <= u32::MAX,
        budget.budget_sum() <= u32::MAX,
    ensures
        alert is None <==> status_of(budget.percentage_of()) == ThresholdStatus::Normal,
        alert matches Some(payload) ==> {
            &&& payload.session_id@ == session_id@
            &&& payload.status@ == status_name_of(status_of(budget.percentage_of()))
            &&& payload.percentage == budget.percentage_of()
            &&& payload.used == budget.used_sum()
            &&& payload.total == budget.budget_sum()
        },
{
    let status = budget.threshold_status();
    match status {
        ThresholdStatus::Normal => None,
        _ => Some(
            BudgetAlertPayload {
                session_id: session_id.to_owned(),
                status: status_name(status).to_owned(),
                percentage: budget.usage_percentage(),
                used: budget.total_used(),
                total: budget.paper_trail_budget + budget.obsidian_budget + budget.reference_budget,
            },
        ),
    }
}

/// Some claim carries a marker.
pub open spec fn has_marked_claim(claims: Seq<Claim>) -> bool {
    exists|i: int| 0 <= i < claims.len() && (#[trigger] claims[i]).marker is Some
}

/// Some tension has no resolution.
pub open spec fn has_open_tension(tensions: Seq<Tension>) -> bool {
    exists|i: int| 0 <= i < tensions.len() && (#[trigger] tensions[i]).resolution is None
}

/// Whether a session holds anything to extract into memory: a marked claim,
/// an open tension or a thesis.
pub fn needs_marker_extraction(session: &Session) -> (needed: bool)
    ensures
        needed == (has_marked_claim(session.claims@) || has_open_tension(session.tensions@)
            || session.thesis is Some),
{
    let mut i: usize = 0;
    while i < session.claims.len()
        invariant
            i <= session.claims.len(),
            forall|j: int| 0 <= j < i ==> (#[trigger] session.claims[j]).marker is None,
        decreases session.claims.len() - i,
    {
        if session.claims[i].marker.is_some() {
            return true;
        }
        i += 1;
    }
    let mut k: usize = 0;
    while k < session.tensions.len()
        invariant
            k <= session.tensions.len(),
            !has_marked_claim(session.claims@),
            forall|j: int| 0 <= j < k ==> (#[trigger] session.tensions[j]).resolution is Some,
        decreases session.tensions.len() - k,
    {
        if session.tensions[k].resolution.is_none() {
            return true;
        }
        k += 1;
    }
    session.thesis.is_some()
}

/// Whether the output of a session is scanned and its conversation mined: it
/// is once the session is formed.
pub fn is_ready_for_mining(session: &Session) -> (ready: bool)
    ensures
        ready == (session.status == SessionStatus::Formed),
{
    match session.status {
        SessionStatus::Formed => true,
        _ => false,
    }
}

/// The kind of memory under which a file of a session is remembered, by
/// its name; none for a file that is not remembered.
pub open spec fn artifact_memory_of(filename: Seq<char>) -> Option<MemoryType> {
    if filename == "memo-final.md"@ {
        Some(MemoryType::Semantic)
    } else if filename == "thesis-history.md"@ {
        Some(MemoryType::Procedural)
    } else if filename == "spine.yaml"@ || filename == "state.json"@ || filename == "scratchpad.md"@ {
        Some(MemoryType::Episodic)
    } else {
        None
    }
}

/// The kind of memory under which a file of a session is remembered.
pub fn artifact_memory_type(filename: &str) -> (memory_type: Option<MemoryType>)
    ensures
        memory_type == artifact_memory_of(filename@),
{
    if str_eq(filename, "memo-final.md") {
        Some(MemoryType::Semantic)
    } else if str_eq(filename, "thesis-history.md") {
        Some(MemoryType::Procedural)
    } else if str_eq(filename, "spine.yaml") || str_eq(filename, "state.json") || str_eq(
        filename,
        "scratchpad.md",
    ) {
        Some(MemoryType::Episodic)
    } else {
        None
    }
}

/// The name at position `i` is the last in the order of strings, and the
/// first of the list among those equal to it.
pub open spec fn is_latest_at(names: Seq<Seq<char>>, i: int) -> bool {
    &&& 0 <= i < names.len()
    &&& forall|j: int| 0 <= j < names.len() ==> !text_before(names[i], #[trigger] names[j])
    &&& forall|j: int| 0 <= j < i ==> text_before(#[trigger] names[j], names[i])
}

/// The position of the latest run among the directories of runs. A run is
/// named by its time, so the latest is the last in the order of strings.
pub fn latest_run(names: &Vec<String>) -> (latest: Option<usize>)
    ensures
        names.len() == 0 <==> latest is None,
        latest matches Some(i) ==> is_latest_at(text_views(names@), i as int),
{
    if names.len() == 0 {
        return None;
    }
    let ghost texts = text_views(names@);
    let mut best: usize = 0;
    let mut k: usize = 1;
    proof {
        lemma_not_before_itself(encode_utf8(texts[0]));
    }
    while k < names.len()
        invariant
            1 <= k <= names.len(),
            best < k,
            texts == text_views(names@),
            forall|j: int| 0 <= j < k ==> !text_before(texts[best as int], #[trigger] texts[j]),
            forall|j: int| 0 <= j < best ==> text_before(#[trigger] texts[j], texts[best as int]),
        decreases names.len() - k,
    {
        let ghost old_best = best;
        match text_order(names[best].as_str(), names[k].as_str()) {
            TextOrder::Before => {
                proof {
                    let new = encode_utf8(texts[k as int]);
                    let was = encode_utf8(texts[old_best as int]);
                    lemma_not_before_itself(new);
                    assert forall|j: int| 0 <= j < k implies !text_before(
                        texts[k as int],
                        #[trigger] texts[j],
                    ) by {
                        if text_before(texts[k as int], texts[j]) {
                            lemma_before_transitive(was, new, encode_utf8(texts[j]));
                        }
                    }
                    assert forall|j: int| 0 <= j < k implies text_before(
                        #[trigger] texts[j],
                        texts[k as int],
                    ) by {
                        lemma_orders(texts[j], texts[old_best as int]);
                        if text_before(texts[j], texts[old_best as int]) {
                            lemma_before_transitive(encode_utf8(texts[j]), was, new);
                        }
                    }
                }
                best = k;
            },
            TextOrder::Same | TextOrder::After => {},
        }
        k += 1;
    }
    Some(best)
}

/// Of two texts one comes before the other, or they are the same.
proof fn lemma_orders(a: Seq<char>, b: Seq<char>)
    ensures
        text_before(a, b) || a == b || text_before(b, a),
{
    lemma_bytes_order(encode_utf8(a), encode_utf8(b));
    if encode_utf8(a) == encode_utf8(b) {
        encode_utf8_decode_utf8(a);
        encode_utf8_decode_utf8(b);
    }
}

} // verus!
