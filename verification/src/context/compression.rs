//! The tiers of a paper trail, and when a tier is compressed.

use vstd::prelude::*;
use vstd::string::StringExecFns;
use crate::clock::now_millis;
use crate::context::budget::{ContextBudget, ThresholdStatus, status_of};
use crate::text::{decimal, push_decimal, push_signed_decimal, signed_decimal};
use crate::seqs::{lemma_filter_take_none, lemma_filter_take_step, lemma_take_all};

verus! {

/// The tiers of a paper trail, from what is always loaded to what is never
/// loaded.
#[derive(Debug, Clone, Copy, PartialEq, Eq, Structural)]
pub enum PaperTrailTier {
    /// Current state, core claim, triggers and locked intent. Always loaded,
    /// never compressed.
    Head,
    /// Claims kept word for word. Always loaded, never compressed.
    KeyEvidence,
    /// The reasoning of the last sessions. Summarised after seven days.
    Recent,
    /// Summaries of older sessions. Archived after thirty days.
    Historical,
    /// Full logs, searchable, never loaded.
    Archived,
}

/// Why something is archived.
#[derive(Debug, Clone, Copy, PartialEq, Eq, Structural)]
pub enum ArchiveReason {
    /// Thirty days without a reference.
    Age,
    /// The thesis advanced by two confidence bands or more.
    ConfidenceAdvancement,
    /// The budget is under pressure.
    BudgetPressure,
    /// The user asked for it.
    UserRequested,
}

/// The tokens that a tier aims at.
pub open spec fn target_tokens_of(tier: PaperTrailTier) -> u32 {
    match tier {
        PaperTrailTier::Head => 500,
        PaperTrailTier::KeyEvidence => 1500,
        PaperTrailTier::Recent => 3000,
        PaperTrailTier::Historical => 1000,
        PaperTrailTier::Archived => 0,
    }
}

impl PaperTrailTier {
    /// The tokens that this tier aims at.
    pub fn target_tokens(&self) -> (tokens: u32)
        ensures
            tokens == target_tokens_of(*self),
    {
        match self {
            PaperTrailTier::Head => 500,
            PaperTrailTier::KeyEvidence => 1500,
            PaperTrailTier::Recent => 3000,
            PaperTrailTier::Historical => 1000,
            PaperTrailTier::Archived => 0,
        }
    }

    /// Whether this tier is loaded without being asked for.
    pub fn is_auto_loaded(&self) -> (loaded: bool)
        ensures
            loaded == (*self == PaperTrailTier::Head || *self == PaperTrailTier::KeyEvidence),
    {
        match self {
            PaperTrailTier::Head => true,
            PaperTrailTier::KeyEvidence => true,
            _ => false,
        }
    }

    /// Whether this tier can be compressed.
    pub fn is_compressible(&self) -> (compressible: bool)
        ensures
            compressible == (*self == PaperTrailTier::Recent || *self == PaperTrailTier::Historical),
    {
        match self {
            PaperTrailTier::Recent => true,
            PaperTrailTier::Historical => true,
            _ => false,
        }
    }
}

/// The head of a thesis.
///
/// `confidence` is a fixed-point number in millionths; `updated_at` is a time
/// in milliseconds since the Unix epoch.
#[derive(Debug, Clone)]
pub struct ThesisHead {
    pub core_claim: String,
    pub confidence: u32,
    pub triggers: Vec<String>,
    pub locked_intent: Option<String>,
    pub updated_at: i64,
    pub token_count: u32,
}

impl ThesisHead {
    /// An empty head, updated at `now`.
    pub fn empty_at(now: i64) -> (head: Self)
        ensures
            head.core_claim@.len() == 0,
            head.confidence == 0,
            head.triggers@.len() == 0,
            head.locked_intent is None,
            head.updated_at == now,
            head.token_count == 0,
    {
        ThesisHead {
            core_claim: String::new(),
            confidence: 0,
            triggers: Vec::new(),
            locked_intent: None,
            updated_at: now,
            token_count: 0,
        }
    }
}

impl Default for ThesisHead {
    fn default() -> (head: Self)
        ensures
            head.core_claim@.len() == 0,
            head.confidence == 0,
            head.triggers@.len() == 0,
            head.locked_intent is None,
            head.token_count == 0,
    {
        ThesisHead::empty_at(now_millis())
    }
}

/// A claim that is kept word for word.
#[derive(Debug, Clone)]
pub struct KeyClaim {
    pub id: String,
    pub content: String,
    pub source: String,
    pub added_at: i64,
    pub reason: Option<String>,
    pub token_count: u32,
}

/// The summary of one session.
///
/// The times are in milliseconds since the Unix epoch.
#[derive(Debug, Clone)]
pub struct SessionSummary {
    pub session_id: String,
    pub session_date: i64,
    pub last_referenced: Option<i64>,
    pub summary: String,
    pub key_outcomes: Vec<String>,
    pub token_count: u32,
    pub tier: PaperTrailTier,
}

/// The summary of several older sessions.
#[derive(Debug, Clone)]
pub struct HistoricalSummary {
    pub session_ids: Vec<String>,
    pub start_date: i64,
    pub end_date: i64,
    pub summary: String,
    pub token_count: u32,
}

/// The paper trail of a thesis.
#[derive(Debug, Clone)]
pub struct PaperTrail {
    pub head: ThesisHead,
    pub key_evidence: Vec<KeyClaim>,
    pub recent_sessions: Vec<SessionSummary>,
    pub historical_summaries: Vec<HistoricalSummary>,
    /// Paths of what is archived: references, never loaded.
    pub archive_paths: Vec<String>,
}

impl PaperTrail {
    /// A paper trail that holds nothing, with a head updated at `now`.
    pub fn empty_at(now: i64) -> (trail: Self)
        ensures
            trail.head.token_count == 0,
            trail.head.updated_at == now,
            trail.key_evidence@.len() == 0,
            trail.recent_sessions@.len() == 0,
            trail.historical_summaries@.len() == 0,
            trail.archive_paths@.len() == 0,
    {
        PaperTrail {
            head: ThesisHead::empty_at(now),
            key_evidence: Vec::new(),
            recent_sessions: Vec::new(),
            historical_summaries: Vec::new(),
            archive_paths: Vec::new(),
        }
    }
}

impl Default for PaperTrail {
    fn default() -> (trail: Self)
        ensures
            trail.head.token_count == 0,
            trail.key_evidence@.len() == 0,
            trail.recent_sessions@.len() == 0,
            trail.historical_summaries@.len() == 0,
            trail.archive_paths@.len() == 0,
    {
        PaperTrail::empty_at(now_millis())
    }
}

/// The sum of a list of token counts.
pub open spec fn sum_of(counts: Seq<u32>) -> nat
    decreases counts.len(),
{
    if counts.len() == 0 {
        0
    } else {
        sum_of(counts.drop_last()) + counts.last() as nat
    }
}

/// The token counts of the key claims, in order.
pub open spec fn key_claim_counts(claims: Seq<KeyClaim>) -> Seq<u32> {
    Seq::new(claims.len(), |i: int| claims[i].token_count)
}

/// The token counts of the session summaries, in order.
pub open spec fn session_counts(sessions: Seq<SessionSummary>) -> Seq<u32> {
    Seq::new(sessions.len(), |i: int| sessions[i].token_count)
}

/// The token counts of the historical summaries, in order.
pub open spec fn historical_counts(summaries: Seq<HistoricalSummary>) -> Seq<u32> {
    Seq::new(summaries.len(), |i: int| summaries[i].token_count)
}

/// The tokens that a tier of the paper trail holds.
pub open spec fn tier_tokens(trail: PaperTrail, tier: PaperTrailTier) -> nat {
    match tier {
        PaperTrailTier::Head => trail.head.token_count as nat,
        PaperTrailTier::KeyEvidence => sum_of(key_claim_counts(trail.key_evidence@)),
        PaperTrailTier::Recent => sum_of(session_counts(trail.recent_sessions@)),
        PaperTrailTier::Historical => sum_of(historical_counts(trail.historical_summaries@)),
        PaperTrailTier::Archived => 0,
    }
}

/// The tokens that the loaded tiers of the paper trail hold.
pub open spec fn loaded_tokens(trail: PaperTrail) -> nat {
    tier_tokens(trail, PaperTrailTier::Head) + tier_tokens(trail, PaperTrailTier::KeyEvidence)
        + tier_tokens(trail, PaperTrailTier::Recent) + tier_tokens(trail, PaperTrailTier::Historical)
}

/// A sum of `u32` counts is at most as many times the greatest `u32`.
proof fn lemma_sum_bound(counts: Seq<u32>)
    ensures
        sum_of(counts) <= counts.len() * 0xffff_ffff,
    decreases counts.len(),
{
    if counts.len() > 0 {
        lemma_sum_bound(counts.drop_last());
        assert((counts.len() - 1) * 0xffff_ffff + 0xffff_ffff == counts.len() * 0xffff_ffff)
            by (nonlinear_arith);
    }
}

/// The tokens of the key claims.
fn sum_key_claims(claims: &Vec<KeyClaim>) -> (sum: u128)
    ensures
        sum == sum_of(key_claim_counts(claims@)),
{
    let ghost counts = key_claim_counts(claims@);
    let mut sum: u128 = 0;
    let mut i: usize = 0;
    assert(counts.take(0) =~= Seq::<u32>::empty());
    while i < claims.len()
        invariant
            i <= claims.len(),
            counts == key_claim_counts(claims@),
            sum == sum_of(counts.take(i as int)),
        decreases claims.len() - i,
    {
        proof {
            lemma_sum_bound(counts.take(i as int));
            assert(counts.take(i + 1).drop_last() =~= counts.take(i as int));
            assert(i * 0xffff_ffff <= 0xffff_ffff_ffff_ffff * 0xffff_ffff) by (nonlinear_arith)
                requires
                    i <= 0xffff_ffff_ffff_ffff,
            ;
        }
        sum = sum + claims[i].token_count as u128;
        i += 1;
    }
    proof {
        lemma_take_all(counts);
    }
    sum
}

/// The tokens of the session summaries.
fn sum_sessions(sessions: &Vec<SessionSummary>) -> (sum: u128)
    ensures
        sum == sum_of(session_counts(sessions@)),
{
    let ghost counts = session_counts(sessions@);
    let mut sum: u128 = 0;
    let mut i: usize = 0;
    assert(counts.take(0) =~= Seq::<u32>::empty());
    while i < sessions.len()
        invariant
            i <= sessions.len(),
            counts == session_counts(sessions@),
            sum == sum_of(counts.take(i as int)),
        decreases sessions.len() - i,
    {
        proof {
            lemma_sum_bound(counts.take(i as int));
            assert(counts.take(i + 1).drop_last() =~= counts.take(i as int));
            assert(i * 0xffff_ffff <= 0xffff_ffff_ffff_ffff * 0xffff_ffff) by (nonlinear_arith)
                requires
                    i <= 0xffff_ffff_ffff_ffff,
            ;
        }
        sum = sum + sessions[i].token_count as u128;
        i += 1;
    }
    proof {
        lemma_take_all(counts);
    }
    sum
}

/// The tokens of the historical summaries.
fn sum_historical(summaries: &Vec<HistoricalSummary>) -> (sum: u128)
    ensures
        sum == sum_of(historical_counts(summaries@)),
{
    let ghost counts = historical_counts(summaries@);
    let mut sum: u128 = 0;
    let mut i: usize = 0;
    assert(counts.take(0) =~= Seq::<u32>::empty());
    while i < summaries.len()
        invariant
            i <= summaries.len(),
            counts == historical_counts(summaries@),
            sum == sum_of(counts.take(i as int)),
        decreases summaries.len() - i,
    {
        proof {
            lemma_sum_bound(counts.take(i as int));
            assert(counts.take(i + 1).drop_last() =~= counts.take(i as int));
            assert(i * 0xffff_ffff <= 0xffff_ffff_ffff_ffff * 0xffff_ffff) by (nonlinear_arith)
                requires
                    i <= 0xffff_ffff_ffff_ffff,
            ;
        }
        sum = sum + summaries[i].token_count as u128;
        i += 1;
    }
    proof {
        lemma_take_all(counts);
    }
    sum
}

impl PaperTrail {
    /// The tokens that `tier` holds, at any size.
    pub fn tokens_in(&self, tier: PaperTrailTier) -> (tokens: u128)
        ensures
            tokens == tier_tokens(*self, tier),
    {
        match tier {
            PaperTrailTier::Head => self.head.token_count as u128,
            PaperTrailTier::KeyEvidence => sum_key_claims(&self.key_evidence),
            PaperTrailTier::Recent => sum_sessions(&self.recent_sessions),
            PaperTrailTier::Historical => sum_historical(&self.historical_summaries),
            PaperTrailTier::Archived => 0,
        }
    }

    /// The tokens that `tier` holds.
    pub fn tokens_by_tier(&self, tier: PaperTrailTier) -> (tokens: u32)
        requires
            tier_tokens(*self, tier) <= u32::MAX,
        ensures
            tokens == tier_tokens(*self, tier),
    {
        self.tokens_in(tier) as u32
    }

    /// The tokens that the loaded tiers hold.
    pub fn total_tokens(&self) -> (tokens: u32)
        requires
            loaded_tokens(*self) <= u32::MAX,
        ensures
            tokens == loaded_tokens(*self),
    {
        let head = self.tokens_in(PaperTrailTier::Head);
        let key_evidence = self.tokens_in(PaperTrailTier::KeyEvidence);
        let recent = self.tokens_in(PaperTrailTier::Recent);
        let historical = self.tokens_in(PaperTrailTier::Historical);
        (head + key_evidence + recent + historical) as u32
    }
}

/// The length of a day, in milliseconds.
pub const DAY_MILLIS: i64 = 86_400_000;

/// Days without a reference after which a recent session is summarised.
pub const SUMMARY_AFTER_DAYS: i64 = 7;

/// Days without a reference after which a session is archived.
pub const ARCHIVE_AFTER_DAYS: i64 = 30;

/// Something in the paper trail that is due for compression.
#[derive(Debug, Clone)]
pub enum CompressionTrigger {
    /// Nothing is due.
    NoneNeeded,
    /// A recent session went seven days without a reference.
    SessionToSummary { session_id: String, age_days: i64 },
    /// Sessions are due for the archive.
    SummaryToArchive { session_ids: Vec<String>, reason: ArchiveReason },
    /// The budget is under pressure: a tier has to give up tokens.
    ForceCompress { tier: PaperTrailTier, tokens_to_free: u32 },
}

/// A trigger as plain values.
pub enum TriggerModel {
    NoneNeeded,
    SessionToSummary { session_id: Seq<char>, age_days: int },
    SummaryToArchive { session_ids: Seq<Seq<char>>, reason: ArchiveReason },
    ForceCompress { tier: PaperTrailTier, tokens_to_free: u32 },
}

impl View for CompressionTrigger {
    type V = TriggerModel;

    open spec fn view(&self) -> TriggerModel {
        match *self {
            CompressionTrigger::NoneNeeded => TriggerModel::NoneNeeded,
            CompressionTrigger::SessionToSummary { session_id, age_days } => {
                TriggerModel::SessionToSummary { session_id: session_id@, age_days: age_days as int }
            },
            CompressionTrigger::SummaryToArchive { session_ids, reason } => {
                TriggerModel::SummaryToArchive {
                    session_ids: Seq::new(session_ids@.len(), |i: int| session_ids@[i]@),
                    reason,
                }
            },
            CompressionTrigger::ForceCompress { tier, tokens_to_free } => {
                TriggerModel::ForceCompress { tier, tokens_to_free }
            },
        }
    }
}

/// The models of a list of triggers, in order.
pub open spec fn trigger_models(triggers: Seq<CompressionTrigger>) -> Seq<TriggerModel> {
    Seq::new(triggers.len(), |i: int| triggers[i]@)
}

/// The time at which a session was last referenced, or else took place.
pub open spec fn last_seen(session: SessionSummary) -> i64 {
    match session.last_referenced {
        Some(at) => at,
        None => session.session_date,
    }
}

/// The whole days between the time at which the session was last seen and
/// `now`.
pub open spec fn age_days_of(session: SessionSummary, now: i64) -> int {
    (now - last_seen(session)) / (DAY_MILLIS as int)
}

/// The session was last seen `days` days before `now`, or earlier.
pub open spec fn is_older_than(session: SessionSummary, now: i64, days: i64) -> bool {
    now - last_seen(session) >= days * DAY_MILLIS
}

/// The session is in the recent tier and due for a summary.
pub open spec fn is_due_for_summary(session: SessionSummary, now: i64) -> bool {
    session.tier == PaperTrailTier::Recent && is_older_than(session, now, SUMMARY_AFTER_DAYS)
}

/// The triggers for the sessions that are due for a summary, in the order of
/// the sessions.
pub open spec fn summary_triggers(sessions: Seq<SessionSummary>, now: i64) -> Seq<TriggerModel> {
    sessions.filter(|s: SessionSummary| is_due_for_summary(s, now)).map_values(
        |s: SessionSummary|
            TriggerModel::SessionToSummary { session_id: s.session_id@, age_days: age_days_of(s, now) },
    )
}

/// The ids of the sessions that are due for the archive, in the order of the
/// sessions.
pub open spec fn archive_candidates(sessions: Seq<SessionSummary>, now: i64) -> Seq<Seq<char>> {
    sessions.filter(|s: SessionSummary| is_older_than(s, now, ARCHIVE_AFTER_DAYS)).map_values(
        |s: SessionSummary| s.session_id@,
    )
}

/// The trigger for the archive, where a session is due for it.
pub open spec fn archive_triggers(sessions: Seq<SessionSummary>, now: i64) -> Seq<TriggerModel> {
    if archive_candidates(sessions, now).len() == 0 {
        Seq::empty()
    } else {
        seq![
            TriggerModel::SummaryToArchive {
                session_ids: archive_candidates(sessions, now),
                reason: ArchiveReason::Age,
            },
        ]
    }
}

/// The trigger that budget pressure sets off: the historical tier gives up
/// tokens where it holds any, else the recent tier where it holds any.
pub open spec fn pressure_triggers(trail: PaperTrail, budget_pressure: bool, tokens_to_free: u32) -> Seq<
    TriggerModel,
> {
    if !budget_pressure || tokens_to_free == 0 {
        Seq::empty()
    } else if tier_tokens(trail, PaperTrailTier::Historical) > 0 {
        seq![TriggerModel::ForceCompress { tier: PaperTrailTier::Historical, tokens_to_free }]
    } else if tier_tokens(trail, PaperTrailTier::Recent) > 0 {
        seq![TriggerModel::ForceCompress { tier: PaperTrailTier::Recent, tokens_to_free }]
    } else {
        Seq::empty()
    }
}

/// All that is due in the paper trail at `now`: the summaries first, then
/// the archive, then what budget pressure forces.
pub open spec fn triggers_of(trail: PaperTrail, budget_pressure: bool, tokens_to_free: u32, now: i64) -> Seq<
    TriggerModel,
> {
    summary_triggers(trail.recent_sessions@, now) + archive_triggers(trail.recent_sessions@, now)
        + pressure_triggers(trail, budget_pressure, tokens_to_free)
}

/// Whether the session was last seen `days` days before `now`, or earlier,
/// and how many whole days ago.
pub fn days_since_seen(session: &SessionSummary, now: i64, days: i64) -> (age: Option<i64>)
    requires
        0 < days,
    ensures
        age is Some <==> is_older_than(*session, now, days),
        age matches Some(d) ==> d == age_days_of(*session, now),
{
    let seen: i64 = match session.last_referenced {
        Some(at) => at,
        None => session.session_date,
    };
    let elapsed: i128 = now as i128 - seen as i128;
    let limit: i128 = days as i128 * DAY_MILLIS as i128;
    if elapsed >= limit {
        let whole: i128 = elapsed / (DAY_MILLIS as i128);
        assert(0 <= whole <= elapsed <= 0xffff_ffff_ffff_ffffint);
        assert(whole <= 0x7fff_ffff_ffff_ffffint) by (nonlinear_arith)
            requires
                whole == elapsed / 86_400_000,
                0 <= elapsed <= 0xffff_ffff_ffff_ffffint,
        ;
        Some(whole as i64)
    } else {
        None
    }
}

/// The triggers for the sessions that are due for a summary at `now`.
fn collect_summary_triggers(sessions: &Vec<SessionSummary>, now: i64) -> (triggers: Vec<CompressionTrigger>)
    ensures
        trigger_models(triggers@) == summary_triggers(sessions@, now),
{
    let ghost due = |s: SessionSummary| is_due_for_summary(s, now);
    let ghost model = |s: SessionSummary|
        TriggerModel::SessionToSummary { session_id: s.session_id@, age_days: age_days_of(s, now) };
    let mut triggers: Vec<CompressionTrigger> = Vec::new();
    let mut i: usize = 0;
    proof {
        lemma_filter_take_none(sessions@, due);
        assert(trigger_models(triggers@) =~= sessions@.take(0).filter(due).map_values(model));
    }
    while i < sessions.len()
        invariant
            i <= sessions.len(),
            due == (|s: SessionSummary| is_due_for_summary(s, now)),
            model == (|s: SessionSummary|
                TriggerModel::SessionToSummary {
                    session_id: s.session_id@,
                    age_days: age_days_of(s, now),
                }),
            trigger_models(triggers@) == sessions@.take(i as int).filter(due).map_values(model),
        decreases sessions.len() - i,
    {
        let session = &sessions[i];
        let ghost kept = sessions@.take(i as int).filter(due);
        proof {
            lemma_filter_take_step(sessions@, due, i as int);
        }
        if session.tier == PaperTrailTier::Recent {
            if let Some(age_days) = days_since_seen(session, now, SUMMARY_AFTER_DAYS) {
                let ghost before = triggers@;
                triggers.push(
                    CompressionTrigger::SessionToSummary {
                        session_id: session.session_id.clone(),
                        age_days,
                    },
                );
                proof {
                    assert(trigger_models(triggers@) =~= trigger_models(before).push(model(*session)));
                    assert(kept.push(*session).map_values(model) =~= kept.map_values(model).push(
                        model(*session),
                    ));
                }
            }
        }
        i += 1;
    }
    proof {
        lemma_take_all(sessions@);
    }
    triggers
}

/// The ids of the sessions that are due for the archive at `now`.
fn collect_archive_candidates(sessions: &Vec<SessionSummary>, now: i64) -> (ids: Vec<String>)
    ensures
        Seq::new(ids@.len(), |i: int| ids@[i]@) == archive_candidates(sessions@, now),
{
    let ghost due = |s: SessionSummary| is_older_than(s, now, ARCHIVE_AFTER_DAYS);
    let ghost name = |s: SessionSummary| s.session_id@;
    let mut ids: Vec<String> = Vec::new();
    let mut i: usize = 0;
    proof {
        lemma_filter_take_none(sessions@, due);
        assert(Seq::new(ids@.len(), |i: int| ids@[i]@) =~= sessions@.take(0).filter(due).map_values(
            name,
        ));
    }
    while i < sessions.len()
        invariant
            i <= sessions.len(),
            due == (|s: SessionSummary| is_older_than(s, now, ARCHIVE_AFTER_DAYS)),
            name == (|s: SessionSummary| s.session_id@),
            Seq::new(ids@.len(), |i: int| ids@[i]@) == sessions@.take(i as int).filter(due).map_values(
                name,
            ),
        decreases sessions.len() - i,
    {
        let session = &sessions[i];
        let ghost kept = sessions@.take(i as int).filter(due);
        proof {
            lemma_filter_take_step(sessions@, due, i as int);
        }
        if days_since_seen(session, now, ARCHIVE_AFTER_DAYS).is_some() {
            let ghost before = ids@;
            ids.push(session.session_id.clone());
            proof {
                assert(Seq::new(ids@.len(), |i: int| ids@[i]@) =~= Seq::new(
                    before.len(),
                    |i: int| before[i]@,
                ).push(session.session_id@));
                assert(kept.push(*session).map_values(name) =~= kept.map_values(name).push(
                    name(*session),
                ));
            }
        }
        i += 1;
    }
    proof {
        lemma_take_all(sessions@);
    }
    ids
}

/// All that is due in the paper trail at `now`.
///
/// First a trigger for each recent session that went seven days without a
/// reference; then one trigger that names every session that went thirty
/// days without one; then, under budget pressure with tokens to free, one
/// that forces the historical tier to give up tokens, or the recent tier
/// where the historical one holds none.
pub fn compression_triggers_at(
    paper_trail: &PaperTrail,
    budget_pressure: bool,
    tokens_to_free: u32,
    now: i64,
) -> (triggers: Vec<CompressionTrigger>)
    ensures
        trigger_models(triggers@) == triggers_of(*paper_trail, budget_pressure, tokens_to_free, now),
{
    let mut triggers = collect_summary_triggers(&paper_trail.recent_sessions, now);
    let candidates = collect_archive_candidates(&paper_trail.recent_sessions, now);
    let ghost summaries = trigger_models(triggers@);
    if candidates.len() > 0 {
        let ghost before = triggers@;
        let trigger = CompressionTrigger::SummaryToArchive {
            session_ids: candidates,
            reason: ArchiveReason::Age,
        };
        triggers.push(trigger);
        assert(trigger_models(triggers@) =~= trigger_models(before).push(trigger@));
    }
    assert(trigger_models(triggers@) =~= summaries + archive_triggers(paper_trail.recent_sessions@, now));
    if budget_pressure && tokens_to_free > 0 {
        let ghost before = triggers@;
        if paper_trail.tokens_in(PaperTrailTier::Historical) > 0 {
            let trigger = CompressionTrigger::ForceCompress {
                tier: PaperTrailTier::Historical,
                tokens_to_free,
            };
            triggers.push(trigger);
            assert(trigger_models(triggers@) =~= trigger_models(before).push(trigger@));
        } else if paper_trail.tokens_in(PaperTrailTier::Recent) > 0 {
            let trigger = CompressionTrigger::ForceCompress { tier: PaperTrailTier::Recent, tokens_to_free };
            triggers.push(trigger);
            assert(trigger_models(triggers@) =~= trigger_models(before).push(trigger@));
        }
    }
    assert(trigger_models(triggers@) =~= triggers_of(*paper_trail, budget_pressure, tokens_to_free, now));
    triggers
}

/// All that is due in the paper trail now.
pub fn check_compression_triggers(paper_trail: &PaperTrail, budget_pressure: bool, tokens_to_free: u32) -> (triggers:
    Vec<CompressionTrigger>)
    ensures
        exists|now: i64|
            trigger_models(triggers@) == #[trigger] triggers_of(
                *paper_trail,
                budget_pressure,
                tokens_to_free,
                now,
            ),
{
    let now = now_millis();
    compression_triggers_at(paper_trail, budget_pressure, tokens_to_free, now)
}

/// A request to compress content from one tier into another.
#[derive(Debug, Clone)]
pub struct CompressionRequest {
    pub source_tier: PaperTrailTier,
    pub target_tier: PaperTrailTier,
    pub content: String,
    /// The most tokens that the compressed content may have.
    pub max_output_tokens: u32,
    /// What the compression has to keep.
    pub preserve: Vec<String>,
    pub reason: ArchiveReason,
}

/// The tokens that the summary of a session may have.
pub const SESSION_SUMMARY_TOKENS: u32 = 500;

/// The tokens that the archive entry of a summary may have.
pub const ARCHIVE_ENTRY_TOKENS: u32 = 200;

/// The text of one summary in an archive request: the session id in square
/// brackets, a blank, and the summary.
pub open spec fn archive_entry(session: SessionSummary) -> Seq<char> {
    seq!['['] + session.session_id@ + seq![']', ' '] + session.summary@
}

/// The text of an archive request: the entries of the summaries, with an
/// empty line between one and the next.
pub open spec fn archive_text(sessions: Seq<SessionSummary>) -> Seq<char>
    decreases sessions.len(),
{
    if sessions.len() == 0 {
        Seq::empty()
    } else if sessions.len() == 1 {
        archive_entry(sessions[0])
    } else {
        archive_text(sessions.drop_last()) + seq!['\n', '\n'] + archive_entry(sessions.last())
    }
}

impl CompressionRequest {
    /// A request to summarise the content of a session: from the recent tier
    /// to the historical one, in at most 500 tokens, for its age.
    pub fn session_to_summary(session_id: &str, content: &str) -> (request: Self)
        ensures
            request.source_tier == PaperTrailTier::Recent,
            request.target_tier == PaperTrailTier::Historical,
            request.content@ == content@,
            request.max_output_tokens == SESSION_SUMMARY_TOKENS,
            request.preserve@.len() == 3,
            request.preserve@[0]@ == "decisions"@,
            request.preserve@[1]@ == "outcomes"@,
            request.preserve@[2]@ == "key_claims"@,
            request.reason == ArchiveReason::Age,
    {
        let mut preserve: Vec<String> = Vec::new();
        preserve.push("decisions".to_owned());
        preserve.push("outcomes".to_owned());
        preserve.push("key_claims".to_owned());
        CompressionRequest {
            source_tier: PaperTrailTier::Recent,
            target_tier: PaperTrailTier::Historical,
            content: content.to_owned(),
            max_output_tokens: SESSION_SUMMARY_TOKENS,
            preserve,
            reason: ArchiveReason::Age,
        }
    }

    /// A request to archive summaries: from the historical tier to the
    /// archive, in at most 200 tokens, for their age.
    pub fn summary_to_archive(summaries: &[SessionSummary]) -> (request: Self)
        ensures
            request.source_tier == PaperTrailTier::Historical,
            request.target_tier == PaperTrailTier::Archived,
            request.content@ == archive_text(summaries@),
            request.max_output_tokens == ARCHIVE_ENTRY_TOKENS,
            request.preserve@.len() == 1,
            request.preserve@[0]@ == "key_decisions"@,
            request.reason == ArchiveReason::Age,
    {
        let mut content = String::new();
        let mut i: usize = 0;
        assert(summaries@.take(0) =~= Seq::<SessionSummary>::empty());
        while i < summaries.len()
            invariant
                i <= summaries.len(),
                content@ == archive_text(summaries@.take(i as int)),
            decreases summaries.len() - i,
        {
            let ghost before = content@;
            proof {
                reveal_strlit("\n\n");
                reveal_strlit("[");
                reveal_strlit("] ");
                assert(summaries@.take(i + 1).drop_last() =~= summaries@.take(i as int));
                assert(summaries@.take(i + 1).last() == summaries@[i as int]);
                assert("\n\n"@ =~= seq!['\n', '\n']);
                assert("["@ =~= seq!['[']);
                assert("] "@ =~= seq![']', ' ']);
            }
            if i > 0 {
                content.append("\n\n");
            }
            content.append("[");
            content.append(summaries[i].session_id.as_str());
            content.append("] ");
            content.append(summaries[i].summary.as_str());
            proof {
                let entry = archive_entry(summaries@[i as int]);
                if i == 0 {
                    assert(before =~= Seq::<char>::empty());
                    assert(content@ =~= entry);
                    assert(summaries@.take(1)[0] == summaries@[0]);
                } else {
                    assert(content@ =~= before + seq!['\n', '\n'] + entry);
                }
            }
            i += 1;
        }
        proof {
            lemma_take_all(summaries@);
        }
        let mut preserve: Vec<String> = Vec::new();
        preserve.push("key_decisions".to_owned());
        CompressionRequest {
            source_tier: PaperTrailTier::Historical,
            target_tier: PaperTrailTier::Archived,
            content,
            max_output_tokens: ARCHIVE_ENTRY_TOKENS,
            preserve,
            reason: ArchiveReason::Age,
        }
    }
}

/// The tokens that the summary of a session is taken to free.
pub const ESTIMATED_SESSION_SUMMARY_SAVINGS: u32 = 500;

/// The tokens that archiving the summary of a session is taken to free.
pub const ESTIMATED_ARCHIVE_SAVINGS_PER_SESSION: u32 = 300;

/// The usage that compression aims at: 65 hundredths of the working budget,
/// which is below the threshold of automatic compression.
pub const COMPRESSION_TARGET_TOKENS: u32 = 46_800;

/// The tokens that a budget under pressure has to free to come down to the
/// target of compression; none while its usage is normal.
pub open spec fn tokens_to_free_of(budget: ContextBudget) -> u32 {
    if status_of(budget.percentage_of()) == ThresholdStatus::Normal || budget.used_sum()
        <= COMPRESSION_TARGET_TOKENS {
        0
    } else {
        (budget.used_sum() - COMPRESSION_TARGET_TOKENS) as u32
    }
}

/// Whether a budget is under pressure, and the tokens that it has to free.
pub fn pressure_of(budget: &ContextBudget) -> (pressure: (bool, u32))
    requires
        budget.used_sum() <= u32::MAX,
    ensures
        pressure.0 == (status_of(budget.percentage_of()) != ThresholdStatus::Normal),
        pressure.1 == tokens_to_free_of(*budget),
{
    match budget.threshold_status() {
        ThresholdStatus::Normal => (false, 0),
        _ => (true, budget.total_used().saturating_sub(COMPRESSION_TARGET_TOKENS)),
    }
}

/// The tokens that carrying out a trigger is taken to free.
pub open spec fn freeable_by(trigger: TriggerModel) -> nat {
    match trigger {
        TriggerModel::NoneNeeded => 0,
        TriggerModel::SessionToSummary { .. } => ESTIMATED_SESSION_SUMMARY_SAVINGS as nat,
        TriggerModel::SummaryToArchive { session_ids, .. } => ((session_ids.len() % 0x1_0000_0000)
            * ESTIMATED_ARCHIVE_SAVINGS_PER_SESSION) as nat,
        TriggerModel::ForceCompress { tokens_to_free, .. } => tokens_to_free as nat,
    }
}

/// The tokens that carrying out all the triggers is taken to free.
pub open spec fn freeable_sum(triggers: Seq<TriggerModel>) -> nat
    decreases triggers.len(),
{
    if triggers.len() == 0 {
        0
    } else {
        freeable_sum(triggers.drop_last()) + freeable_by(triggers.last())
    }
}

/// The tokens that carrying out all the triggers is taken to free, at any
/// size.
pub fn tokens_freeable(triggers: &Vec<CompressionTrigger>) -> (tokens: u128)
    ensures
        tokens == freeable_sum(trigger_models(triggers@)),
{
    let ghost models = trigger_models(triggers@);
    let mut tokens: u128 = 0;
    let mut i: usize = 0;
    assert(models.take(0) =~= Seq::<TriggerModel>::empty());
    while i < triggers.len()
        invariant
            i <= triggers.len(),
            models == trigger_models(triggers@),
            tokens == freeable_sum(models.take(i as int)),
            tokens <= i * 0x1_0000_0000_0000,
        decreases triggers.len() - i,
    {
        proof {
            assert(models.take(i + 1).drop_last() =~= models.take(i as int));
            assert(models.take(i + 1).last() == triggers[i as int]@);
            assert(i * 0x1_0000_0000_0000 + 0x1_0000_0000_0000 == (i + 1) * 0x1_0000_0000_0000)
                by (nonlinear_arith);
            assert(i * 0x1_0000_0000_0000 <= 0xffff_ffff_ffff_ffff * 0x1_0000_0000_0000)
                by (nonlinear_arith)
                requires
                    0 <= i <= 0xffff_ffff_ffff_ffff,
            ;
        }
        let freed: u128 = match &triggers[i] {
            CompressionTrigger::NoneNeeded => 0,
            CompressionTrigger::SessionToSummary { .. } => ESTIMATED_SESSION_SUMMARY_SAVINGS as u128,
            CompressionTrigger::SummaryToArchive { session_ids, .. } => {
                let count: u64 = session_ids.len() as u64 % 0x1_0000_0000;
                assert(count * 300 <= 0xffff_ffff * 300) by (nonlinear_arith)
                    requires
                        count <= 0xffff_ffff,
                ;
                (count * ESTIMATED_ARCHIVE_SAVINGS_PER_SESSION as u64) as u128
            },
            CompressionTrigger::ForceCompress { tokens_to_free, .. } => *tokens_to_free as u128,
        };
        tokens = tokens + freed;
        i += 1;
    }
    assert(models.take(triggers.len() as int) =~= models);
    tokens
}

/// The name of an archive reason as it is written in a message.
pub open spec fn archive_reason_label(reason: ArchiveReason) -> Seq<char> {
    match reason {
        ArchiveReason::Age => "Age"@,
        ArchiveReason::ConfidenceAdvancement => "ConfidenceAdvancement"@,
        ArchiveReason::BudgetPressure => "BudgetPressure"@,
        ArchiveReason::UserRequested => "UserRequested"@,
    }
}

/// The name of a tier as it is written in a message.
pub open spec fn tier_label(tier: PaperTrailTier) -> Seq<char> {
    match tier {
        PaperTrailTier::Head => "Head"@,
        PaperTrailTier::KeyEvidence => "KeyEvidence"@,
        PaperTrailTier::Recent => "Recent"@,
        PaperTrailTier::Historical => "Historical"@,
        PaperTrailTier::Archived => "Archived"@,
    }
}

/// What a trigger says to the user.
pub open spec fn trigger_text(trigger: TriggerModel) -> Seq<char> {
    match trigger {
        TriggerModel::NoneNeeded => "No compression needed"@,
        TriggerModel::SessionToSummary { session_id, age_days } => "Session "@ + session_id + " is "@
            + signed_decimal(age_days) + " days old - consider summarizing"@,
        TriggerModel::SummaryToArchive { session_ids, reason } => "Archive "@ + decimal(
            session_ids.len(),
        ) + " sessions ("@ + archive_reason_label(reason) + ")"@,
        TriggerModel::ForceCompress { tier, tokens_to_free } => "Force compress "@ + tier_label(tier)
            + " tier to free "@ + decimal(tokens_to_free as nat) + " tokens"@,
    }
}

impl ArchiveReason {
    /// The name of this reason as it is written in a message.
    pub fn label(&self) -> (label: &'static str)
        ensures
            label@ == archive_reason_label(*self),
    {
        match self {
            ArchiveReason::Age => "Age",
            ArchiveReason::ConfidenceAdvancement => "ConfidenceAdvancement",
            ArchiveReason::BudgetPressure => "BudgetPressure",
            ArchiveReason::UserRequested => "UserRequested",
        }
    }
}

impl PaperTrailTier {
    /// The name of this tier as it is written in a message.
    pub fn label(&self) -> (label: &'static str)
        ensures
            label@ == tier_label(*self),
    {
        match self {
            PaperTrailTier::Head => "Head",
            PaperTrailTier::KeyEvidence => "KeyEvidence",
            PaperTrailTier::Recent => "Recent",
            PaperTrailTier::Historical => "Historical",
            PaperTrailTier::Archived => "Archived",
        }
    }
}

/// What a trigger says to the user.
pub fn describe_trigger(trigger: &CompressionTrigger) -> (text: String)
    ensures
        text@ == trigger_text(trigger@),
{
    match trigger {
        CompressionTrigger::NoneNeeded => "No compression needed".to_owned(),
        CompressionTrigger::SessionToSummary { session_id, age_days } => {
            let mut text = "Session ".to_owned();
            text.append(session_id.as_str());
            text.append(" is ");
            push_signed_decimal(&mut text, *age_days);
            text.append(" days old - consider summarizing");
            text
        },
        CompressionTrigger::SummaryToArchive { session_ids, reason } => {
            let mut text = "Archive ".to_owned();
            push_decimal(&mut text, session_ids.len() as u64);
            text.append(" sessions (");
            text.append(reason.label());
            text.append(")");
            text
        },
        CompressionTrigger::ForceCompress { tier, tokens_to_free } => {
            let mut text = "Force compress ".to_owned();
            text.append(tier.label());
            text.append(" tier to free ");
            push_decimal(&mut text, *tokens_to_free as u64);
            text.append(" tokens");
            text
        },
    }
}

} // verus!
