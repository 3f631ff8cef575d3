//! Sessions and what they hold.

pub mod document;

use vstd::prelude::*;
use vstd::string::StrSliceExecFns;
use crate::chars::is_alphanumeric_char;
use crate::context::classification::SessionClassification;
use crate::text::{concat, replace_char, replaced, to_chars};
use crate::cdg::types::{CdgEdge, CdgSnapshot};
use crate::context::budget::ContextBudget;
use crate::context::compression::PaperTrail;
use crate::seqs::text_views;

verus! {

/// An error of the session store.
#[derive(Debug, Clone)]
pub enum SessionError {
    /// An error of the operating system, by its text.
    Io(String),
    /// An error in the stored form of a session, by its text.
    Json(String),
    NotFound(String),
    InvalidPath(String),
    InvalidSessionId,
    PathEscape,
    NoAppDataDir,
}

impl SessionError {
    /// The text of the error.
    pub open spec fn message_of(&self) -> Seq<char> {
        match *self {
            SessionError::Io(detail) => "IO error: "@ + detail@,
            SessionError::Json(detail) => "JSON error: "@ + detail@,
            SessionError::NotFound(id) => "Session not found: "@ + id@,
            SessionError::InvalidPath(path) => "Invalid path: "@ + path@,
            SessionError::InvalidSessionId => "Invalid session ID"@,
            SessionError::PathEscape => "Path escapes allowed directory"@,
            SessionError::NoAppDataDir => "App data directory not found"@,
        }
    }

    /// The text of the error.
    pub fn message(&self) -> (text: String)
        ensures
            text@ == self.message_of(),
    {
        match self {
            SessionError::Io(detail) => concat("IO error: ", detail.as_str()),
            SessionError::Json(detail) => concat("JSON error: ", detail.as_str()),
            SessionError::NotFound(id) => concat("Session not found: ", id.as_str()),
            SessionError::InvalidPath(path) => concat("Invalid path: ", path.as_str()),
            SessionError::InvalidSessionId => "Invalid session ID".to_owned(),
            SessionError::PathEscape => "Path escapes allowed directory".to_owned(),
            SessionError::NoAppDataDir => "App data directory not found".to_owned(),
        }
    }
}

/// A character that a session id may hold: a letter, a digit, a hyphen or
/// an underscore.
pub open spec fn is_id_char(c: char) -> bool {
    is_alphanumeric_char(c) || c == '-' || c == '_'
}

/// A session id that is safe in a path: not empty, and made of id
/// characters only. No such id holds a path separator or a dot.
pub open spec fn is_valid_session_id(id: Seq<char>) -> bool {
    id.len() > 0 && forall|i: int| 0 <= i < id.len() ==> is_id_char(#[trigger] id[i])
}

/// Accepts a session id that is safe in a path, and rejects every other.
pub fn validate_session_id(session_id: &str) -> (checked: Result<(), SessionError>)
    ensures
        checked is Ok <==> is_valid_session_id(session_id@),
        checked is Err ==> checked matches Err(SessionError::InvalidSessionId),
{
    let chars = to_chars(session_id);
    if chars.len() == 0 {
        return Err(SessionError::InvalidSessionId);
    }
    let mut i: usize = 0;
    while i < chars.len()
        invariant
            i <= chars.len(),
            chars@ == session_id@,
            forall|j: int| 0 <= j < i ==> is_id_char(#[trigger] chars[j]),
        decreases chars.len() - i,
    {
        let c = chars[i];
        if !(c.is_alphanumeric() || c == '-' || c == '_') {
            return Err(SessionError::InvalidSessionId);
        }
        i += 1;
    }
    Ok(())
}

/// The column of the board in which a session stands.
#[derive(Debug, Clone, Copy, PartialEq, Eq, Structural)]
pub enum SessionStatus {
    Backlog,
    Exploring,
    Tensions,
    Synthesizing,
    Formed,
}

impl Default for SessionStatus {
    fn default() -> (status: Self)
        ensures
            status == SessionStatus::Backlog,
    {
        SessionStatus::Backlog
    }
}

/// What a session is about.
#[derive(Debug, Clone, Copy, PartialEq, Eq, Structural)]
pub enum SessionMode {
    Idea,
    Decision,
}

impl Default for SessionMode {
    fn default() -> (mode: Self)
        ensures
            mode == SessionMode::Idea,
    {
        SessionMode::Idea
    }
}

/// A file that gives context to a session.
#[derive(Debug, Clone)]
pub struct ContextFile {
    pub id: String,
    pub filename: String,
    pub path: String,
    pub added_at: i64,
}

/// An atomic proposition tracked within a reasoning session.
///
/// `created_at` is a time in milliseconds since the Unix epoch.
#[derive(Debug, Clone)]
pub struct Claim {
    pub id: String,
    pub content: String,
    pub source_id: String,
    /// A marker such as `[INSIGHT]`, `[EVIDENCE]`, `[RISK]` or `[COUNTER]`.
    pub marker: Option<String>,
    pub created_at: i64,
}

/// A tension between two claims.
#[derive(Debug, Clone)]
pub struct Tension {
    pub id: String,
    pub claim_a_id: String,
    pub claim_b_id: String,
    pub description: String,
    pub resolution: Option<String>,
    pub created_at: i64,
}

/// The thesis of a session.
///
/// `confidence` is a fixed-point number in millionths.
#[derive(Debug, Clone)]
pub struct Thesis {
    pub content: String,
    pub confidence: u32,
    pub updated_at: i64,
}

/// One pass over a session, kept for the audit trail.
#[derive(Debug, Clone)]
pub struct Pass {
    pub id: String,
    /// `"expansion"`, `"compression"` or `"critique"`.
    pub pass_type: String,
    pub started_at: i64,
    pub completed_at: Option<i64>,
    pub token_count: Option<u32>,
}

/// The terminal of a session.
#[derive(Debug, Clone)]
pub struct TerminalState {
    pub pid: Option<u32>,
    pub running: bool,
    pub last_command: Option<String>,
}

impl Default for TerminalState {
    fn default() -> (state: Self)
        ensures
            state.pid is None,
            !state.running,
            state.last_command is None,
    {
        TerminalState { pid: None, running: false, last_command: None }
    }
}

/// A reference document attached to a session.
#[derive(Debug, Clone)]
pub struct SessionReferenceDoc {
    pub id: String,
    pub filename: String,
    pub path: String,
    pub token_count: u32,
    /// `"full"`, `"summarized"` or `"chunked"`.
    pub handling: String,
    /// `"ephemeral"`, `"cached"` or `"permanent"`.
    pub persistence: String,
}

/// A session, as it is stored.
///
/// The times are in milliseconds since the Unix epoch.
#[derive(Debug, Clone)]
pub struct Session {
    pub id: String,
    pub title: String,
    pub status: SessionStatus,
    pub mode: SessionMode,
    pub working_dir: String,
    pub is_project_local: bool,
    pub created: i64,
    pub updated: i64,
    pub last_resumed: Option<i64>,
    pub conversation_id: Option<String>,
    pub parent_session_id: Option<String>,
    pub context_files: Vec<ContextFile>,
    pub claims: Vec<Claim>,
    pub tensions: Vec<Tension>,
    pub thesis: Option<Thesis>,
    pub passes: Vec<Pass>,
    pub terminal: TerminalState,
    pub context_budget: Option<ContextBudget>,
    pub paper_trail: Option<PaperTrail>,
    pub reference_docs: Vec<SessionReferenceDoc>,
    pub cdg_edges: Vec<CdgEdge>,
    pub cdg_snapshots: Vec<CdgSnapshot>,
    pub category: Option<String>,
    pub summary: Option<String>,
}

/// What is asked for when a session is created.
#[derive(Debug, Clone)]
pub struct CreateSessionInput {
    pub title: String,
    pub mode: SessionMode,
    pub working_dir: Option<String>,
    pub category: Option<String>,
    pub summary: Option<String>,
}

/// What is asked for when a session is forked.
#[derive(Debug, Clone)]
pub struct ForkSessionInput {
    pub source_session_id: String,
    pub title: Option<String>,
}

/// All that is needed to start the terminal of a session.
///
/// `env_vars` holds names and values of environment variables.
#[derive(Debug, Clone)]
pub struct LaunchContext {
    pub working_dir: String,
    pub session_dir: String,
    pub conversation_id: Option<String>,
    pub claude_command: Vec<String>,
    pub env_vars: Vec<(String, String)>,
}

/// What the user is told to do next with a session, by its status.
pub open spec fn suggested_action_of(status: SessionStatus) -> Seq<char> {
    match status {
        SessionStatus::Backlog => "Begin exploration with /dialectic to develop initial thesis"@,
        SessionStatus::Exploring => "Continue /dialectic exploration to find tensions"@,
        SessionStatus::Tensions => "Analyze tensions, run /dialectic with critique focus"@,
        SessionStatus::Synthesizing => "Synthesize findings into coherent thesis"@,
        SessionStatus::Formed => "Review and finalize thesis, consider export"@,
    }
}

/// What the user is told to do next with a session.
pub fn suggested_action(status: SessionStatus) -> (action: &'static str)
    ensures
        action@ == suggested_action_of(status),
{
    match status {
        SessionStatus::Backlog => "Begin exploration with /dialectic to develop initial thesis",
        SessionStatus::Exploring => "Continue /dialectic exploration to find tensions",
        SessionStatus::Tensions => "Analyze tensions, run /dialectic with critique focus",
        SessionStatus::Synthesizing => "Synthesize findings into coherent thesis",
        SessionStatus::Formed => "Review and finalize thesis, consider export",
    }
}

/// The title of a fork: the title that was asked for, or that of the source
/// with a remark.
pub open spec fn fork_title_of(source_title: Seq<char>, asked: Option<String>) -> Seq<char> {
    match asked {
        Some(title) => title@,
        None => source_title + " (fork)"@,
    }
}

/// The title of a fork.
pub fn fork_title(source_title: &str, asked: Option<String>) -> (title: String)
    ensures
        title@ == fork_title_of(source_title@, asked),
{
    match asked {
        Some(title) => title,
        None => concat(source_title, " (fork)"),
    }
}

/// A session that begins: in the backlog, with nothing in it, a budget for
/// fresh territory and an empty paper trail.
///
/// The session lives in `working_dir`; it is local to a project where the
/// input named a directory.
pub fn new_session(id: String, input: CreateSessionInput, working_dir: String, now: i64) -> (session:
    Session)
    ensures
        session.id == id,
        session.title == input.title,
        session.status == SessionStatus::Backlog,
        session.mode == input.mode,
        session.working_dir == working_dir,
        session.is_project_local == input.working_dir is Some,
        session.created == now,
        session.updated == now,
        session.last_resumed is None,
        session.conversation_id is None,
        session.parent_session_id is None,
        session.context_files@.len() == 0,
        session.claims@.len() == 0,
        session.tensions@.len() == 0,
        session.thesis is None,
        session.passes@.len() == 0,
        session.terminal.pid is None && !session.terminal.running
            && session.terminal.last_command is None,
        session.context_budget == Some(ContextBudget::fresh(SessionClassification::NetNew, now)),
        session.paper_trail is Some,
        session.paper_trail.unwrap().key_evidence@.len() == 0,
        session.paper_trail.unwrap().recent_sessions@.len() == 0,
        session.paper_trail.unwrap().historical_summaries@.len() == 0,
        session.reference_docs@.len() == 0,
        session.cdg_edges@.len() == 0,
        session.cdg_snapshots@.len() == 0,
        session.category == input.category,
        session.summary == input.summary,
{
    Session {
        id,
        title: input.title,
        status: SessionStatus::Backlog,
        mode: input.mode,
        working_dir,
        is_project_local: input.working_dir.is_some(),
        created: now,
        updated: now,
        last_resumed: None,
        conversation_id: None,
        parent_session_id: None,
        context_files: Vec::new(),
        claims: Vec::new(),
        tensions: Vec::new(),
        thesis: None,
        passes: Vec::new(),
        terminal: TerminalState::default(),
        context_budget: Some(ContextBudget::at(SessionClassification::NetNew, now)),
        paper_trail: Some(PaperTrail::empty_at(now)),
        reference_docs: Vec::new(),
        cdg_edges: Vec::new(),
        cdg_snapshots: Vec::new(),
        category: input.category,
        summary: input.summary,
    }
}

/// A fork of a session: a session that begins, and carries the mode, the
/// place, the context files, the claims, the tensions, the thesis, the
/// reference documents, the edges, the category and the summary of its
/// source. Passes, snapshots, terminal, budget and paper trail start anew,
/// and the conversation is a fresh one.
pub fn fork_of(source: Session, id: String, title: Option<String>, now: i64) -> (forked: Session)
    ensures
        forked.id == id,
        forked.title@ == fork_title_of(source.title@, title),
        forked.status == SessionStatus::Backlog,
        forked.mode == source.mode,
        forked.working_dir == source.working_dir,
        forked.is_project_local == source.is_project_local,
        forked.created == now,
        forked.updated == now,
        forked.last_resumed is None,
        forked.conversation_id is None,
        forked.parent_session_id == Some(source.id),
        forked.context_files == source.context_files,
        forked.claims == source.claims,
        forked.tensions == source.tensions,
        forked.thesis == source.thesis,
        forked.reference_docs == source.reference_docs,
        forked.cdg_edges == source.cdg_edges,
        forked.category == source.category,
        forked.summary == source.summary,
        forked.passes@.len() == 0,
        forked.terminal.pid is None && !forked.terminal.running
            && forked.terminal.last_command is None,
        forked.context_budget == Some(ContextBudget::fresh(SessionClassification::NetNew, now)),
        forked.paper_trail is Some,
        forked.paper_trail.unwrap().key_evidence@.len() == 0,
        forked.paper_trail.unwrap().recent_sessions@.len() == 0,
        forked.paper_trail.unwrap().historical_summaries@.len() == 0,
        forked.cdg_snapshots@.len() == 0,
{
    let title = fork_title(source.title.as_str(), title);
    Session {
        id,
        title,
        status: SessionStatus::Backlog,
        mode: source.mode,
        working_dir: source.working_dir,
        is_project_local: source.is_project_local,
        created: now,
        updated: now,
        last_resumed: None,
        conversation_id: None,
        parent_session_id: Some(source.id),
        context_files: source.context_files,
        claims: source.claims,
        tensions: source.tensions,
        thesis: source.thesis,
        passes: Vec::new(),
        terminal: TerminalState::default(),
        context_budget: Some(ContextBudget::at(SessionClassification::NetNew, now)),
        paper_trail: Some(PaperTrail::empty_at(now)),
        reference_docs: source.reference_docs,
        cdg_edges: source.cdg_edges,
        cdg_snapshots: Vec::new(),
        category: source.category,
        summary: source.summary,
    }
}

/// The words of the command that starts the assistant of a session, the
/// first being the name of its program.
///
/// A conversation is resumed where the session has one whose id is made of
/// id characters only, so that no word of the command can hold a character
/// that a shell reads as its own. A session that is local to a project adds
/// its own directory to those of the assistant.
pub open spec fn launch_command_of(
    program: Seq<char>,
    conversation_id: Option<String>,
    is_project_local: bool,
    session_dir: Seq<char>,
) -> Seq<Seq<char>> {
    let start = seq![program];
    let resumed = match conversation_id {
        Some(id) => if is_valid_session_id(id@) {
            start.push("--resume"@).push(id@)
        } else {
            start
        },
        None => start,
    };
    if is_project_local {
        resumed.push("--add-dir"@).push(session_dir)
    } else {
        resumed
    }
}

/// All that is needed to start the terminal of a session that lives in the
/// directory `session_dir`, with the assistant `program`.
///
/// The terminal starts in the working directory of a session that is local
/// to a project, and in the session directory of any other. Two environment
/// variables tell the id and the directory of the session.
pub fn launch_context(session: &Session, session_dir: &str, program: &str) -> (context:
    LaunchContext)
    ensures
        context.working_dir@ == if session.is_project_local {
            session.working_dir@
        } else {
            session_dir@
        },
        context.session_dir@ == session_dir@,
        context.conversation_id == session.conversation_id,
        text_views(context.claude_command@) == launch_command_of(
            program@,
            session.conversation_id,
            session.is_project_local,
            session_dir@,
        ),
        context.env_vars@.len() == 2,
        context.env_vars@[0].0@ == "DIALECTIC_SESSION_ID"@,
        context.env_vars@[0].1@ == session.id@,
        context.env_vars@[1].0@ == "DIALECTIC_SESSION_DIR"@,
        context.env_vars@[1].1@ == session_dir@,
{
    let mut command: Vec<String> = Vec::new();
    command.push(program.to_owned());
    proof {
        assert(text_views(command@) =~= seq![program@]);
    }
    let conversation_id: Option<String> = match &session.conversation_id {
        Some(id) => {
            if validate_session_id(id.as_str()).is_ok() {
                let ghost before = command@;
                command.push("--resume".to_owned());
                command.push(id.clone());
                proof {
                    assert(text_views(command@) =~= text_views(before).push("--resume"@).push(id@));
                }
            }
            Some(id.clone())
        },
        None => None,
    };
    if session.is_project_local {
        let ghost before = command@;
        command.push("--add-dir".to_owned());
        command.push(session_dir.to_owned());
        proof {
            assert(text_views(command@) =~= text_views(before).push("--add-dir"@).push(session_dir@));
        }
    }
    let mut env_vars: Vec<(String, String)> = Vec::new();
    env_vars.push(("DIALECTIC_SESSION_ID".to_owned(), session.id.clone()));
    env_vars.push(("DIALECTIC_SESSION_DIR".to_owned(), session_dir.to_owned()));
    let working_dir = if session.is_project_local {
        session.working_dir.clone()
    } else {
        session_dir.to_owned()
    };
    LaunchContext {
        working_dir,
        session_dir: session_dir.to_owned(),
        conversation_id,
        claude_command: command,
        env_vars,
    }
}

/// The prefix of the name of a session directory.
pub open spec fn session_prefix() -> Seq<char> {
    seq!['s', 'e', 's', 's', '_']
}

/// How many characters of the text the prefixes `sess_` at its start take.
pub open spec fn session_prefix_len(text: Seq<char>) -> int
    decreases text.len(),
{
    if text.len() >= 5 && text.subrange(0, 5) == session_prefix() {
        5 + session_prefix_len(text.subrange(5, text.len() as int))
    } else {
        0
    }
}

/// A session id without the prefixes `sess_` at its start.
pub open spec fn bare_session_id(id: Seq<char>) -> Seq<char> {
    id.subrange(session_prefix_len(id), id.len() as int)
}

/// The prefixes end within the text.
proof fn lemma_session_prefix_len(text: Seq<char>)
    ensures
        0 <= session_prefix_len(text) <= text.len(),
    decreases text.len(),
{
    if text.len() >= 5 && text.subrange(0, 5) == session_prefix() {
        lemma_session_prefix_len(text.subrange(5, text.len() as int));
    }
}

/// The name of the directory of a session: `sess_` and the id, which may be
/// given with or without that prefix. An id that is not safe in a path is
/// refused.
pub fn session_dir_name(session_id: &str) -> (name: Result<String, SessionError>)
    ensures
        name is Ok <==> is_valid_session_id(bare_session_id(session_id@)),
        name matches Ok(dir) ==> dir@ == session_prefix() + bare_session_id(session_id@),
        name is Err ==> name matches Err(SessionError::InvalidSessionId),
{
    let chars = to_chars(session_id);
    let mut start: usize = 0;
    proof {
        lemma_session_prefix_len(chars@);
        assert(chars@.subrange(0, chars.len() as int) =~= chars@);
    }
    while chars.len() - start >= 5 && chars[start] == 's' && chars[start + 1] == 'e' && chars[start + 2]
        == 's' && chars[start + 3] == 's' && chars[start + 4] == '_'
        invariant
            start <= chars.len(),
            session_prefix_len(chars@) == start + session_prefix_len(
                chars@.subrange(start as int, chars.len() as int),
            ),
        decreases chars.len() - start,
    {
        proof {
            let rest = chars@.subrange(start as int, chars.len() as int);
            assert(rest.subrange(0, 5) =~= session_prefix());
            assert(rest.subrange(5, rest.len() as int) =~= chars@.subrange(
                start + 5,
                chars.len() as int,
            ));
        }
        start += 5;
    }
    proof {
        let rest = chars@.subrange(start as int, chars.len() as int);
        if rest.len() >= 5 && rest.subrange(0, 5) == session_prefix() {
            let head = rest.subrange(0, 5);
            assert(head[0] == 's' && head[1] == 'e' && head[2] == 's' && head[3] == 's' && head[4]
                == '_');
            assert(head[0] == chars[start as int] && head[1] == chars[start + 1] && head[2]
                == chars[start + 2] && head[3] == chars[start + 3] && head[4] == chars[start + 4]);
        }
    }
    let bare = session_id.substring_char(start, chars.len());
    match validate_session_id(bare) {
        Ok(()) => {
            proof {
                reveal_strlit("sess_");
                assert("sess_"@ =~= session_prefix());
            }
            Ok(concat("sess_", bare))
        },
        Err(error) => Err(error),
    }
}

/// The name under which the assistant keeps the conversations of a working
/// directory: its path with a hyphen for each slash.
pub fn project_dir_name(working_dir: &str) -> (name: String)
    ensures
        name@ == replaced(working_dir@, '/', '-'),
{
    replace_char(working_dir, '/', '-')
}

/// The id of a conversation as the assistant names its files: letters,
/// digits and hyphens only.
pub open spec fn is_conversation_id(id: Seq<char>) -> bool {
    forall|i: int| 0 <= i < id.len() ==> is_alphanumeric_char(#[trigger] id[i]) || id[i] == '-'
}

/// Whether a text is the id of a conversation.
pub fn check_conversation_id(id: &str) -> (valid: bool)
    ensures
        valid == is_conversation_id(id@),
{
    let chars = to_chars(id);
    let mut i: usize = 0;
    while i < chars.len()
        invariant
            i <= chars.len(),
            chars@ == id@,
            forall|j: int| 0 <= j < i ==> is_alphanumeric_char(#[trigger] chars[j]) || chars[j] == '-',
        decreases chars.len() - i,
    {
        let c = chars[i];
        if !(c.is_alphanumeric() || c == '-') {
            return false;
        }
        i += 1;
    }
    true
}

/// A time of change counts for a session that was last changed at `floor`:
/// it lies after `floor` and after the Unix epoch.
pub open spec fn is_later(modified: i64, floor: i64) -> bool {
    modified > floor && modified > 0
}

/// The file at position `i` is the newest that counts: no other that counts
/// was changed later, and none before it at the same time.
pub open spec fn is_newest_after(times: Seq<i64>, floor: i64, i: int) -> bool {
    &&& 0 <= i < times.len()
    &&& is_later(times[i], floor)
    &&& forall|j: int| 0 <= j < times.len() ==> #[trigger] times[j] <= times[i]
    &&& forall|j: int| 0 <= j < i ==> #[trigger] times[j] < times[i]
}

/// The position of the file that was changed last, among files with the
/// times of change `times`, in milliseconds since the Unix epoch; none where
/// no file was changed after `floor` and after the epoch.
pub fn newest_after(times: &[i64], floor: i64) -> (found: Option<usize>)
    ensures
        match found {
            Some(i) => is_newest_after(times@, floor, i as int),
            None => forall|j: int| 0 <= j < times.len() ==> !is_later(#[trigger] times[j], floor),
        },
{
    let mut newest: Option<usize> = None;
    let mut newest_time: i64 = 0;
    let mut k: usize = 0;
    while k < times.len()
        invariant
            k <= times.len(),
            newest_time >= 0,
            match newest {
                Some(i) => {
                    &&& i < k
                    &&& newest_time == times[i as int]
                    &&& is_later(times[i as int], floor)
                    &&& forall|j: int| 0 <= j < k && is_later(#[trigger] times[j], floor) ==> times[j] <= times[i as int]
                    &&& forall|j: int| 0 <= j < i ==> #[trigger] times[j] < times[i as int]
                },
                None => newest_time == 0 && forall|j: int|
                    0 <= j < k ==> !is_later(#[trigger] times[j], floor),
            },
        decreases times.len() - k,
    {
        let modified = times[k];
        if modified > floor && modified > newest_time {
            newest = Some(k);
            newest_time = modified;
        }
        k += 1;
    }
    newest
}

} // verus!
