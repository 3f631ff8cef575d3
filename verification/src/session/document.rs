//! The document that tells the assistant of a session what the session
//! holds: its state, its workflow, its claims, tensions and thesis, and what
//! earlier work left behind.
//!
//! The files that earlier work left behind are read elsewhere and handed in
//! as texts.

use vstd::prelude::*;
use vstd::string::{StrSliceExecFns, StringExecFns};
use crate::chroma::memory::{confidence_percent, round_percent};
use crate::session::{Claim, ContextFile, Session, SessionMode, SessionStatus, Tension, Thesis};
use crate::text::{decimal, first_chars, leading, push_decimal};

verus! {

/// What the assistant is to do while a session is in the backlog.
pub const SPARK_INSTRUCTION: &'static str =
    "You are in SPARK mode. Your job is to:\n- Help the user brainstorm and explore the question space broadly\n- Gather source material and extract initial claims\n- Surface assumptions and identify what's actually being asked\n- Use semantic markers: [INSIGHT], [EVIDENCE], [RISK], [COUNTER]\n- When the user has enough material, suggest moving to Shape (exploring)";

/// What the assistant is to do while a session is explored.
pub const SHAPE_INSTRUCTION: &'static str =
    "You are in SHAPE mode. Your job is to:\n- Interview the user about their emerging positions\n- Ask probing questions to clarify what they actually believe\n- Help form distinct claims from fuzzy intuitions\n- Identify which claims are load-bearing vs peripheral\n- When positions are clear, suggest moving to Stress-Test (tensions)";

/// What the assistant is to do while the tensions of a session are worked
/// out.
pub const STRESS_TEST_INSTRUCTION: &'static str =
    "You are in STRESS-TEST mode. Your job is to:\n- Apply structured critique: inversion, second-order effects, falsification, base rates, incentive audit, adversary simulation\n- Surface genuine tensions between claims\n- Challenge the strongest-seeming conclusions hardest\n- Don't paper over contradictions \u{2014} preserve them as signal\n- When key tensions are surfaced, suggest moving to Sharpen (synthesizing)";

/// What the assistant is to do while a session is synthesized.
pub const SHARPEN_INSTRUCTION: &'static str =
    "You are in SHARPEN mode. Your job is to:\n- Resolve or acknowledge open tensions\n- Produce a thesis with a calibrated confidence score (0.0-1.0)\n- Define concrete revision triggers\n- Compress insights into a defensible position\n- When thesis is solid, suggest moving to Ship (formed)";

/// What closes the document.
pub const DOCUMENT_FOOTER: &'static str =
    "---\n*This file is auto-generated by Dialectic. Do not edit manually.*\n";

/// The skill of a status, and what it is for.
pub open spec fn skill_description_of(status: SessionStatus) -> Seq<char> {
    match status {
        SessionStatus::Backlog => "Spark \u{2014} brainstorm, gather sources, initial framing"@,
        SessionStatus::Exploring => "Shape \u{2014} form positions on claims through probing"@,
        SessionStatus::Tensions => "Stress-Test \u{2014} challenge assumptions, surface contradictions"@,
        SessionStatus::Synthesizing => "Sharpen \u{2014} crystallize thesis with calibrated confidence"@,
        SessionStatus::Formed => "Ship \u{2014} session is complete"@,
    }
}

/// The skill of a status, and what it is for.
pub fn get_skill_description(status: SessionStatus) -> (text: &'static str)
    ensures
        text@ == skill_description_of(status),
{
    match status {
        SessionStatus::Backlog => "Spark \u{2014} brainstorm, gather sources, initial framing",
        SessionStatus::Exploring => "Shape \u{2014} form positions on claims through probing",
        SessionStatus::Tensions => "Stress-Test \u{2014} challenge assumptions, surface contradictions",
        SessionStatus::Synthesizing => "Sharpen \u{2014} crystallize thesis with calibrated confidence",
        SessionStatus::Formed => "Ship \u{2014} session is complete",
    }
}

/// What the assistant is to do in a session of a status; nothing once the
/// session is formed.
pub open spec fn skill_instruction_of(status: SessionStatus) -> Option<Seq<char>> {
    match status {
        SessionStatus::Backlog => Some(SPARK_INSTRUCTION@),
        SessionStatus::Exploring => Some(SHAPE_INSTRUCTION@),
        SessionStatus::Tensions => Some(STRESS_TEST_INSTRUCTION@),
        SessionStatus::Synthesizing => Some(SHARPEN_INSTRUCTION@),
        SessionStatus::Formed => None,
    }
}

/// What the assistant is to do in a session of a status.
pub fn get_skill_instruction(status: SessionStatus) -> (text: Option<&'static str>)
    ensures
        match skill_instruction_of(status) {
            Some(instruction) => text matches Some(t) && t@ == instruction,
            None => text is None,
        },
{
    match status {
        SessionStatus::Backlog => Some(SPARK_INSTRUCTION),
        SessionStatus::Exploring => Some(SHAPE_INSTRUCTION),
        SessionStatus::Tensions => Some(STRESS_TEST_INSTRUCTION),
        SessionStatus::Synthesizing => Some(SHARPEN_INSTRUCTION),
        SessionStatus::Formed => None,
    }
}

/// The most claims that the document lists.
pub const LISTED_CLAIMS: usize = 10;

/// The most related sessions that the document lists.
pub const LISTED_HITS: usize = 5;

/// The most characters of the memo that the document takes.
pub const MEMO_CHARS: usize = 4_000;

/// The most characters of the spine, of the history of the thesis and of
/// the state that the document takes.
pub const ARTIFACT_CHARS: usize = 2_000;

/// The most characters of the scratchpad that the document takes.
pub const SCRATCHPAD_CHARS: usize = 3_000;

/// A session that holds related material.
#[derive(Debug, Clone)]
pub struct RelatedHit {
    pub session_id: String,
    pub collection: String,
    pub snippet: String,
}

/// What the search for related sessions found.
#[derive(Debug, Clone)]
pub struct RelatedSessionResults {
    pub hits: Vec<RelatedHit>,
}

/// The texts of the files that earlier work on a session left behind; none
/// for a file that is not there.
///
/// The memo, the spine and the history of the thesis are those of the latest
/// run that distilled the session.
#[derive(Debug, Clone)]
pub struct SessionArtifacts {
    pub memo: Option<String>,
    pub spine: Option<String>,
    pub thesis_history: Option<String>,
    pub state: Option<String>,
    pub scratchpad: Option<String>,
}

/// The name of a status as the document writes it.
pub open spec fn status_word(status: SessionStatus) -> Seq<char> {
    match status {
        SessionStatus::Backlog => "backlog"@,
        SessionStatus::Exploring => "exploring"@,
        SessionStatus::Tensions => "tensions"@,
        SessionStatus::Synthesizing => "synthesizing"@,
        SessionStatus::Formed => "formed"@,
    }
}

/// The name of a mode as the document writes it.
pub open spec fn mode_word(mode: SessionMode) -> Seq<char> {
    match mode {
        SessionMode::Idea => "idea"@,
        SessionMode::Decision => "decision"@,
    }
}

/// The head of the document: title, id, status with its skill, mode, and
/// where the session lives.
pub open spec fn head_part(session: Session, session_dir: Seq<char>) -> Seq<char> {
    "# Dialectic Session Context\n\n**Session:** "@ + session.title@ + "\n**ID:** "@ + session.id@
        + "\n**Status:** "@ + status_word(session.status) + " ("@ + skill_description_of(
        session.status,
    ) + ")\n**Mode:** "@ + mode_word(session.mode) + "\n**Session dir:** "@ + session_dir
        + "\n**Session data:** "@ + session_dir + "/session.json\n\n"@
}

/// The workflow of the status, where it has one.
pub open spec fn workflow_part(status: SessionStatus) -> Seq<char> {
    match skill_instruction_of(status) {
        Some(instruction) => "## Active Workflow\n\n"@ + instruction + "\n\n"@,
        None => Seq::empty(),
    }
}

/// The line of a context file.
pub open spec fn file_line(file: ContextFile) -> Seq<char> {
    "- `"@ + file.filename@ + "` ("@ + file.path@ + ")\n"@
}

/// The lines of the first `count` context files.
pub open spec fn file_lines(files: Seq<ContextFile>, count: int) -> Seq<char>
    decreases count,
{
    if count <= 0 || count > files.len() {
        Seq::empty()
    } else {
        file_lines(files, count - 1) + file_line(files[count - 1])
    }
}

/// The context files, where there are any.
pub open spec fn files_part(files: Seq<ContextFile>) -> Seq<char> {
    if files.len() == 0 {
        Seq::empty()
    } else {
        "## Context Files\n\n"@ + file_lines(files, files.len() as int) + "\n"@
    }
}

/// The line of a claim: its marker, if it has one, and its content.
pub open spec fn claim_line(claim: Claim) -> Seq<char> {
    "- "@ + (match claim.marker {
        Some(marker) => marker@,
        None => Seq::empty(),
    }) + " "@ + claim.content@ + "\n"@
}

/// The lines of the first `count` claims.
pub open spec fn claim_lines(claims: Seq<Claim>, count: int) -> Seq<char>
    decreases count,
{
    if count <= 0 || count > claims.len() {
        Seq::empty()
    } else {
        claim_lines(claims, count - 1) + claim_line(claims[count - 1])
    }
}

/// How many of the claims are listed.
pub open spec fn listed_claims(claims: Seq<Claim>) -> int {
    if claims.len() <= LISTED_CLAIMS {
        claims.len() as int
    } else {
        LISTED_CLAIMS as int
    }
}

/// What tells of the claims that are not listed.
pub open spec fn more_claims_line(claims: Seq<Claim>) -> Seq<char> {
    if claims.len() > LISTED_CLAIMS {
        "- ... and "@ + decimal((claims.len() - LISTED_CLAIMS) as nat) + " more\n"@
    } else {
        Seq::empty()
    }
}

/// The claims, where there are any: how many there are, the first ten, and
/// how many more.
pub open spec fn claims_part(claims: Seq<Claim>) -> Seq<char> {
    if claims.len() == 0 {
        Seq::empty()
    } else {
        "## Claims ("@ + decimal(claims.len()) + " total)\n\n"@ + claim_lines(
            claims,
            listed_claims(claims),
        ) + more_claims_line(claims) + "\n"@
    }
}

/// How many of the first `count` tensions have no resolution.
pub open spec fn open_tensions(tensions: Seq<Tension>, count: int) -> nat
    decreases count,
{
    if count <= 0 || count > tensions.len() {
        0
    } else if tensions[count - 1].resolution is None {
        open_tensions(tensions, count - 1) + 1
    } else {
        open_tensions(tensions, count - 1)
    }
}

/// The lines of those of the first `count` tensions that have no
/// resolution.
pub open spec fn tension_lines(tensions: Seq<Tension>, count: int) -> Seq<char>
    decreases count,
{
    if count <= 0 || count > tensions.len() {
        Seq::empty()
    } else if tensions[count - 1].resolution is None {
        tension_lines(tensions, count - 1) + "- "@ + tensions[count - 1].description@ + "\n"@
    } else {
        tension_lines(tensions, count - 1)
    }
}

/// The tensions without a resolution, where there are any.
pub open spec fn tensions_part(tensions: Seq<Tension>) -> Seq<char> {
    let open = open_tensions(tensions, tensions.len() as int);
    if open == 0 {
        Seq::empty()
    } else {
        "## Open Tensions ("@ + decimal(open) + " unresolved)\n\n"@ + tension_lines(
            tensions,
            tensions.len() as int,
        ) + "\n"@
    }
}

/// The thesis with its confidence in whole hundredths, where there is one.
pub open spec fn thesis_part(thesis: Option<Thesis>) -> Seq<char> {
    match thesis {
        Some(t) => "## Current Thesis (confidence: "@ + decimal(confidence_percent(t.confidence))
            + "%)\n\n"@ + t.content@ + "\n\n"@,
        None => Seq::empty(),
    }
}

/// The summary, where there is one.
pub open spec fn summary_part(summary: Option<String>) -> Seq<char> {
    match summary {
        Some(text) => "## Summary\n\n"@ + text@ + "\n\n"@,
        None => Seq::empty(),
    }
}

/// Where the session comes from, if it is a fork.
pub open spec fn lineage_part(parent: Option<String>) -> Seq<char> {
    match parent {
        Some(id) => "## Lineage\n\nThis session was forked from parent session `"@ + id@
            + "`.\nClaims, tensions, and thesis were carried forward. The conversation is fresh.\n\n"@,
        None => Seq::empty(),
    }
}

/// A text between an opening and a closing, cut to its first `limit`
/// characters; `note` follows a text that was cut.
pub open spec fn framed(
    opening: Seq<char>,
    content: Seq<char>,
    limit: nat,
    note: Seq<char>,
    closing: Seq<char>,
) -> Seq<char> {
    opening + leading(content, limit) + (if content.len() > limit {
        note
    } else {
        Seq::empty()
    }) + closing
}

/// The memo of the latest run, where there is one.
pub open spec fn memo_part(memo: Option<String>) -> Seq<char> {
    match memo {
        Some(text) => framed(
            "## Prior Conviction Memo\n\n"@,
            text@,
            MEMO_CHARS as nat,
            "\n\n[TRUNCATED]"@,
            "\n\n"@,
        ),
        None => Seq::empty(),
    }
}

/// The spine of the latest run, where there is one.
pub open spec fn spine_part(spine: Option<String>) -> Seq<char> {
    match spine {
        Some(text) => framed(
            "## Reasoning Spine\n\n```yaml\n"@,
            text@,
            ARTIFACT_CHARS as nat,
            "\n# [TRUNCATED]"@,
            "\n```\n\n"@,
        ),
        None => Seq::empty(),
    }
}

/// The history of the thesis from the latest run, where there is one.
pub open spec fn history_part(history: Option<String>) -> Seq<char> {
    match history {
        Some(text) => framed(
            "## Thesis Evolution\n\n"@,
            text@,
            ARTIFACT_CHARS as nat,
            "\n\n[TRUNCATED]"@,
            "\n\n"@,
        ),
        None => Seq::empty(),
    }
}

/// The state of the last iteration, where there is one.
pub open spec fn state_part(state: Option<String>) -> Seq<char> {
    match state {
        Some(text) => framed(
            "## Previous Iteration State\n\n```json\n"@,
            text@,
            ARTIFACT_CHARS as nat,
            "\n// [TRUNCATED]"@,
            "\n```\n\n"@,
        ),
        None => Seq::empty(),
    }
}

/// The scratchpad, where there is one.
pub open spec fn scratchpad_part(scratchpad: Option<String>) -> Seq<char> {
    match scratchpad {
        Some(text) => framed(
            "## Working Notes (Scratchpad)\n\n"@,
            text@,
            SCRATCHPAD_CHARS as nat,
            "\n\n[TRUNCATED]"@,
            "\n\n"@,
        ),
        None => Seq::empty(),
    }
}

/// A run has distilled the session: its memo, its spine or its history of
/// the thesis is there.
pub open spec fn is_distilled(artifacts: SessionArtifacts) -> bool {
    artifacts.memo is Some || artifacts.spine is Some || artifacts.thesis_history is Some
}

/// What earlier work left behind: what the latest run distilled, and only
/// where no run did, the state and the scratchpad.
pub open spec fn artifacts_part(artifacts: SessionArtifacts) -> Seq<char> {
    memo_part(artifacts.memo) + spine_part(artifacts.spine) + history_part(artifacts.thesis_history)
        + (if is_distilled(artifacts) {
        Seq::empty()
    } else {
        state_part(artifacts.state) + scratchpad_part(artifacts.scratchpad)
    })
}

/// The line of a related session.
pub open spec fn hit_line(hit: RelatedHit) -> Seq<char> {
    "- **"@ + hit.session_id@ + "** ("@ + hit.collection@ + "): "@ + hit.snippet@ + "\n"@
}

/// The lines of the first `count` related sessions.
pub open spec fn hit_lines(hits: Seq<RelatedHit>, count: int) -> Seq<char>
    decreases count,
{
    if count <= 0 || count > hits.len() {
        Seq::empty()
    } else {
        hit_lines(hits, count - 1) + hit_line(hits[count - 1])
    }
}

/// How many of the related sessions are listed.
pub open spec fn listed_hits(hits: Seq<RelatedHit>) -> int {
    if hits.len() <= LISTED_HITS {
        hits.len() as int
    } else {
        LISTED_HITS as int
    }
}

/// The first five related sessions, where the search found any.
pub open spec fn related_part(related: Option<&RelatedSessionResults>) -> Seq<char> {
    match related {
        Some(found) => if found.hits@.len() == 0 {
            Seq::empty()
        } else {
            "## Related Prior Work\n\nThe following sessions contain related material:\n\n"@
                + hit_lines(found.hits@, listed_hits(found.hits@)) + "\n"@
        },
        None => Seq::empty(),
    }
}

/// The document of a session: its head, its workflow, its context files,
/// claims, open tensions, thesis, summary and lineage, what earlier work left
/// behind, the related sessions, and the footer. A part for which the
/// session holds nothing is left out.
pub open spec fn session_document(
    session: Session,
    session_dir: Seq<char>,
    artifacts: SessionArtifacts,
    related: Option<&RelatedSessionResults>,
) -> Seq<char> {
    head_part(session, session_dir) + workflow_part(session.status) + files_part(
        session.context_files@,
    ) + claims_part(session.claims@) + tensions_part(session.tensions@) + thesis_part(session.thesis)
        + summary_part(session.summary) + lineage_part(session.parent_session_id) + artifacts_part(
        artifacts,
    ) + related_part(related) + DOCUMENT_FOOTER@
}

/// Writes the head of the document.
fn head_text(session: &Session, session_dir: &str) -> (text: String)
    ensures
        text@ == head_part(*session, session_dir@),
{
    let mut text = "# Dialectic Session Context\n\n**Session:** ".to_owned();
    text.append(session.title.as_str());
    text.append("\n**ID:** ");
    text.append(session.id.as_str());
    text.append("\n**Status:** ");
    text.append(
        match session.status {
            SessionStatus::Backlog => "backlog",
            SessionStatus::Exploring => "exploring",
            SessionStatus::Tensions => "tensions",
            SessionStatus::Synthesizing => "synthesizing",
            SessionStatus::Formed => "formed",
        },
    );
    text.append(" (");
    text.append(get_skill_description(session.status));
    text.append(")\n**Mode:** ");
    text.append(
        match session.mode {
            SessionMode::Idea => "idea",
            SessionMode::Decision => "decision",
        },
    );
    text.append("\n**Session dir:** ");
    text.append(session_dir);
    text.append("\n**Session data:** ");
    text.append(session_dir);
    text.append("/session.json\n\n");
    text
}

/// Writes the workflow of a status.
fn workflow_text(status: SessionStatus) -> (text: String)
    ensures
        text@ == workflow_part(status),
{
    match get_skill_instruction(status) {
        Some(instruction) => {
            let mut text = "## Active Workflow\n\n".to_owned();
            text.append(instruction);
            text.append("\n\n");
            text
        },
        None => String::new(),
    }
}

/// Writes the context files.
fn files_text(files: &Vec<ContextFile>) -> (text: String)
    ensures
        text@ == files_part(files@),
{
    if files.len() == 0 {
        return String::new();
    }
    let mut text = "## Context Files\n\n".to_owned();
    let ghost heading = text@;
    let mut i: usize = 0;
    proof {
        assert(text@ =~= heading + file_lines(files@, 0));
    }
    while i < files.len()
        invariant
            i <= files.len(),
            text@ == heading + file_lines(files@, i as int),
        decreases files.len() - i,
    {
        let mut line = "- `".to_owned();
        line.append(files[i].filename.as_str());
        line.append("` (");
        line.append(files[i].path.as_str());
        line.append(")\n");
        text.append(line.as_str());
        proof {
            assert(line@ == file_line(files@[i as int]));
            assert(text@ =~= heading + file_lines(files@, i + 1));
        }
        i += 1;
    }
    text.append("\n");
    text
}

/// Writes the claims.
fn claims_text(claims: &Vec<Claim>) -> (text: String)
    ensures
        text@ == claims_part(claims@),
{
    if claims.len() == 0 {
        return String::new();
    }
    let mut text = "## Claims (".to_owned();
    push_decimal(&mut text, claims.len() as u64);
    text.append(" total)\n\n");
    let ghost heading = text@;
    let listed: usize = if claims.len() <= LISTED_CLAIMS {
        claims.len()
    } else {
        LISTED_CLAIMS
    };
    let mut i: usize = 0;
    proof {
        assert(text@ =~= heading + claim_lines(claims@, 0));
    }
    while i < listed
        invariant
            i <= listed <= claims.len(),
            text@ == heading + claim_lines(claims@, i as int),
        decreases listed - i,
    {
        let mut line = "- ".to_owned();
        match &claims[i].marker {
            Some(marker) => {
                line.append(marker.as_str());
            },
            None => {
                assert(line@ =~= "- "@ + Seq::<char>::empty());
            },
        }
        line.append(" ");
        line.append(claims[i].content.as_str());
        line.append("\n");
        text.append(line.as_str());
        proof {
            assert(line@ == claim_line(claims@[i as int]));
            assert(text@ =~= heading + claim_lines(claims@, i + 1));
        }
        i += 1;
    }
    if claims.len() > LISTED_CLAIMS {
        let mut more = "- ... and ".to_owned();
        push_decimal(&mut more, (claims.len() - LISTED_CLAIMS) as u64);
        more.append(" more\n");
        text.append(more.as_str());
    } else {
        assert(text@ =~= text@ + Seq::<char>::empty());
    }
    text.append("\n");
    text
}

/// Counts the tensions without a resolution.
fn count_open(tensions: &Vec<Tension>) -> (open: usize)
    ensures
        open == open_tensions(tensions@, tensions.len() as int),
{
    let mut open: usize = 0;
    let mut i: usize = 0;
    while i < tensions.len()
        invariant
            i <= tensions.len(),
            open <= i,
            open == open_tensions(tensions@, i as int),
        decreases tensions.len() - i,
    {
        if tensions[i].resolution.is_none() {
            open += 1;
        }
        i += 1;
    }
    open
}

/// Writes the tensions without a resolution.
fn tensions_text(tensions: &Vec<Tension>) -> (text: String)
    ensures
        text@ == tensions_part(tensions@),
{
    let open = count_open(tensions);
    if open == 0 {
        return String::new();
    }
    let mut text = "## Open Tensions (".to_owned();
    push_decimal(&mut text, open as u64);
    text.append(" unresolved)\n\n");
    let ghost heading = text@;
    let mut i: usize = 0;
    proof {
        assert(text@ =~= heading + tension_lines(tensions@, 0));
    }
    while i < tensions.len()
        invariant
            i <= tensions.len(),
            text@ == heading + tension_lines(tensions@, i as int),
        decreases tensions.len() - i,
    {
        if tensions[i].resolution.is_none() {
            let mut line = "- ".to_owned();
            line.append(tensions[i].description.as_str());
            line.append("\n");
            text.append(line.as_str());
            proof {
                assert(text@ =~= heading + tension_lines(tensions@, i + 1));
            }
        }
        i += 1;
    }
    text.append("\n");
    text
}

/// Writes the thesis.
fn thesis_text(thesis: &Option<Thesis>) -> (text: String)
    ensures
        text@ == thesis_part(*thesis),
{
    match thesis {
        Some(t) => {
            let mut text = "## Current Thesis (confidence: ".to_owned();
            push_decimal(&mut text, round_percent(t.confidence) as u64);
            text.append("%)\n\n");
            text.append(t.content.as_str());
            text.append("\n\n");
            text
        },
        None => String::new(),
    }
}

/// Writes the summary.
fn summary_text(summary: &Option<String>) -> (text: String)
    ensures
        text@ == summary_part(*summary),
{
    match summary {
        Some(content) => {
            let mut text = "## Summary\n\n".to_owned();
            text.append(content.as_str());
            text.append("\n\n");
            text
        },
        None => String::new(),
    }
}

/// Writes where the session comes from.
fn lineage_text(parent: &Option<String>) -> (text: String)
    ensures
        text@ == lineage_part(*parent),
{
    match parent {
        Some(id) => {
            let mut text = "## Lineage\n\nThis session was forked from parent session `".to_owned();
            text.append(id.as_str());
            text.append(
                "`.\nClaims, tensions, and thesis were carried forward. The conversation is fresh.\n\n",
            );
            text
        },
        None => String::new(),
    }
}

/// Writes a text between an opening and a closing, cut to its first `limit`
/// characters, with `note` behind a text that was cut.
pub fn frame_text(opening: &str, content: &str, limit: usize, note: &str, closing: &str) -> (text: String)
    ensures
        text@ == framed(opening@, content@, limit as nat, note@, closing@),
{
    let mut text = opening.to_owned();
    let kept = first_chars(content, limit);
    text.append(kept.as_str());
    if content.unicode_len() > limit {
        text.append(note);
    } else {
        assert(text@ =~= text@ + Seq::<char>::empty());
    }
    text.append(closing);
    text
}

/// Writes what earlier work left behind.
fn artifacts_text(artifacts: &SessionArtifacts) -> (text: String)
    ensures
        text@ == artifacts_part(*artifacts),
{
    let mut text = match &artifacts.memo {
        Some(memo) => frame_text(
            "## Prior Conviction Memo\n\n",
            memo.as_str(),
            MEMO_CHARS,
            "\n\n[TRUNCATED]",
            "\n\n",
        ),
        None => String::new(),
    };
    match &artifacts.spine {
        Some(spine) => {
            let part = frame_text(
                "## Reasoning Spine\n\n```yaml\n",
                spine.as_str(),
                ARTIFACT_CHARS,
                "\n# [TRUNCATED]",
                "\n```\n\n",
            );
            text.append(part.as_str());
        },
        None => {
            assert(text@ =~= text@ + Seq::<char>::empty());
        },
    }
    match &artifacts.thesis_history {
        Some(history) => {
            let part = frame_text(
                "## Thesis Evolution\n\n",
                history.as_str(),
                ARTIFACT_CHARS,
                "\n\n[TRUNCATED]",
                "\n\n",
            );
            text.append(part.as_str());
        },
        None => {
            assert(text@ =~= text@ + Seq::<char>::empty());
        },
    }
    if artifacts.memo.is_some() || artifacts.spine.is_some() || artifacts.thesis_history.is_some() {
        assert(text@ =~= text@ + Seq::<char>::empty());
        return text;
    }
    let mut rest = match &artifacts.state {
        Some(state) => frame_text(
            "## Previous Iteration State\n\n```json\n",
            state.as_str(),
            ARTIFACT_CHARS,
            "\n// [TRUNCATED]",
            "\n```\n\n",
        ),
        None => String::new(),
    };
    match &artifacts.scratchpad {
        Some(scratchpad) => {
            let part = frame_text(
                "## Working Notes (Scratchpad)\n\n",
                scratchpad.as_str(),
                SCRATCHPAD_CHARS,
                "\n\n[TRUNCATED]",
                "\n\n",
            );
            rest.append(part.as_str());
        },
        None => {
            assert(rest@ =~= rest@ + Seq::<char>::empty());
        },
    }
    text.append(rest.as_str());
    text
}

/// Writes the related sessions.
fn related_text(related: Option<&RelatedSessionResults>) -> (text: String)
    ensures
        text@ == related_part(related),
{
    let found = match related {
        Some(found) => found,
        None => {
            return String::new();
        },
    };
    if found.hits.len() == 0 {
        return String::new();
    }
    let mut text = "## Related Prior Work\n\nThe following sessions contain related material:\n\n".to_owned();
    let ghost heading = text@;
    let listed: usize = if found.hits.len() <= LISTED_HITS {
        found.hits.len()
    } else {
        LISTED_HITS
    };
    let mut i: usize = 0;
    proof {
        assert(text@ =~= heading + hit_lines(found.hits@, 0));
    }
    while i < listed
        invariant
            i <= listed <= found.hits.len(),
            text@ == heading + hit_lines(found.hits@, i as int),
        decreases listed - i,
    {
        let mut line = "- **".to_owned();
        line.append(found.hits[i].session_id.as_str());
        line.append("** (");
        line.append(found.hits[i].collection.as_str());
        line.append("): ");
        line.append(found.hits[i].snippet.as_str());
        line.append("\n");
        text.append(line.as_str());
        proof {
            assert(line@ == hit_line(found.hits@[i as int]));
            assert(text@ =~= heading + hit_lines(found.hits@, i + 1));
        }
        i += 1;
    }
    text.append("\n");
    text
}

/// Writes the document of a session that lives in `session_dir`, with what
/// earlier work left behind and what the search for related sessions found.
pub fn generate_claude_md(
    session: &Session,
    session_dir: &str,
    artifacts: &SessionArtifacts,
    related_context: Option<&RelatedSessionResults>,
) -> (md: String)
    ensures
        md@ == session_document(*session, session_dir@, *artifacts, related_context),
{
    let mut md = head_text(session, session_dir);
    md.append(workflow_text(session.status).as_str());
    md.append(files_text(&session.context_files).as_str());
    md.append(claims_text(&session.claims).as_str());
    md.append(tensions_text(&session.tensions).as_str());
    md.append(thesis_text(&session.thesis).as_str());
    md.append(summary_text(&session.summary).as_str());
    md.append(lineage_text(&session.parent_session_id).as_str());
    md.append(artifacts_text(artifacts).as_str());
    md.append(related_text(related_context).as_str());
    md.append(DOCUMENT_FOOTER);
    md
}

} // verus!
