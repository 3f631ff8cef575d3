use dialectic::context::budget::{
    source_status, BudgetStatus, ContextBudget, ContextSource, ThresholdStatus, OUTPUT_RESERVED,
    THRESHOLD_AUTO_COMPRESS, THRESHOLD_FORCE_COMPRESS, THRESHOLD_WARN_USER, TOTAL_BUDGET,
    WORKING_BUDGET,
};
use dialectic::context::classification::{
    classify_session, max_similarity, BudgetAllocation, ClassificationSignals,
    SessionClassification, TokenBudgets,
};
use dialectic::context::compression::{
    check_compression_triggers, compression_triggers_at, days_since_seen, CompressionRequest,
    CompressionTrigger, HistoricalSummary, KeyClaim, PaperTrail, PaperTrailTier, SessionSummary,
    DAY_MILLIS,
};
use dialectic::context::tokens::{
    clear_token_cache, count_tokens, count_tokens_batch, estimate_tokens_quick,
    exceeds_token_limit, get_cache_stats, hash_content, settle_count, TokenCache,
};

fn now_millis() -> i64 {
    chrono::Utc::now().timestamp_millis()
}

// ---- budget ----

#[test]
fn test_budget_constants() {
    assert_eq!(WORKING_BUDGET, TOTAL_BUDGET - OUTPUT_RESERVED);
    assert!(THRESHOLD_AUTO_COMPRESS < THRESHOLD_WARN_USER);
    assert!(THRESHOLD_WARN_USER < THRESHOLD_FORCE_COMPRESS);
}

#[test]
fn test_new_budget_allocation() {
    let budget = ContextBudget::new(SessionClassification::Fit);
    // Fit: 40% paper trail
    assert_eq!(budget.paper_trail_budget, 28800); // 72000 * 0.4
    assert_eq!(budget.paper_trail_used, 0);
}

#[test]
fn test_add_tokens() {
    let mut budget = ContextBudget::new(SessionClassification::NetNew);

    // Should succeed
    assert!(budget.add_tokens(ContextSource::Reference, 1000));
    assert_eq!(budget.reference_used, 1000);

    // Try to exceed budget
    let over_budget = budget.reference_budget + 1;
    assert!(!budget.add_tokens(ContextSource::Reference, over_budget));
}

#[test]
fn test_threshold_status() {
    let mut budget = ContextBudget::new(SessionClassification::Fit);

    // Start normal
    assert_eq!(budget.threshold_status(), ThresholdStatus::Normal);

    // Add 75% usage
    let total = budget.paper_trail_budget + budget.obsidian_budget + budget.reference_budget;
    budget.paper_trail_used = (total as f64 * 0.75) as u32;
    assert_eq!(budget.threshold_status(), ThresholdStatus::AutoCompress);

    // Add to 90%
    budget.paper_trail_used = (total as f64 * 0.90) as u32;
    assert_eq!(budget.threshold_status(), ThresholdStatus::WarnUser);

    // Add to 96%
    budget.paper_trail_used = (total as f64 * 0.96) as u32;
    assert_eq!(budget.threshold_status(), ThresholdStatus::ForceCompress);
}

#[test]
fn test_reclassify() {
    let mut budget = ContextBudget::new(SessionClassification::Quick);
    assert_eq!(budget.paper_trail_budget, 0); // Quick has 0% paper trail

    budget.reclassify(SessionClassification::Fit);
    assert_eq!(budget.paper_trail_budget, 28800); // Fit has 40%
}

#[test]
fn budget_at_a_time_is_exact() {
    let budget = ContextBudget::at(SessionClassification::Adjacent, 1234);
    let expected = ContextBudget {
        classification: SessionClassification::Adjacent,
        paper_trail_budget: 14_400,
        paper_trail_used: 0,
        obsidian_budget: 21_600,
        obsidian_used: 0,
        reference_budget: 14_400,
        reference_used: 0,
        reasoning_budget: 21_600,
        last_audit: 1234,
    };
    assert_eq!(budget, expected);
    assert_eq!(ContextBudget::default().classification, SessionClassification::NetNew);
    assert_eq!(ContextBudget::default().reasoning_budget, 43_200);
}

#[test]
fn reclassify_keeps_the_usage() {
    let mut budget = ContextBudget::at(SessionClassification::Fit, 1);
    assert!(budget.add_tokens(ContextSource::PaperTrail, 500));
    budget.reclassify_at(SessionClassification::Quick, 2);
    assert_eq!(budget.classification, SessionClassification::Quick);
    assert_eq!(budget.paper_trail_used, 500);
    assert_eq!(budget.paper_trail_budget, 0);
    assert_eq!(budget.reference_budget, 25_200);
    assert_eq!(budget.last_audit, 2);
    budget.record_audit_at(3);
    assert_eq!(budget.last_audit, 3);
    let before = budget;
    budget.record_audit();
    assert_eq!(ContextBudget { last_audit: before.last_audit, ..budget }, before);
}

#[test]
fn usage_percentage_rounds_down_and_stops_at_100() {
    let mut budget = ContextBudget::at(SessionClassification::Fit, 0);
    // Budgets: 28,800 + 14,400 + 7,200 = 50,400.
    assert_eq!(budget.usage_percentage(), 0);
    budget.obsidian_used = 35_279;
    assert_eq!(budget.usage_percentage(), 69);
    assert_eq!(budget.threshold_status(), ThresholdStatus::Normal);
    budget.obsidian_used = 35_280;
    assert_eq!(budget.usage_percentage(), 70);
    assert_eq!(budget.threshold_status(), ThresholdStatus::AutoCompress);
    budget.obsidian_used = u32::MAX;
    budget.reference_used = u32::MAX;
    assert_eq!(budget.usage_percentage(), 100);
    assert_eq!(budget.threshold_status(), ThresholdStatus::ForceCompress);

    let empty = ContextBudget {
        paper_trail_budget: 0,
        obsidian_budget: 0,
        reference_budget: 0,
        ..budget
    };
    assert_eq!(empty.usage_percentage(), 0);
}

#[test]
fn tokens_are_added_only_where_they_fit() {
    let mut budget = ContextBudget::at(SessionClassification::Fit, 0);
    assert!(budget.can_add(ContextSource::Reference, 7_200));
    assert!(!budget.can_add(ContextSource::Reference, 7_201));
    assert!(budget.add_tokens(ContextSource::Reference, 7_200));
    assert!(!budget.can_add(ContextSource::Reference, 1));
    // A sum beyond the greatest u32 does not fit either.
    assert!(!budget.can_add(ContextSource::Reference, u32::MAX));
    let before = budget;
    assert!(!budget.add_tokens(ContextSource::Reference, u32::MAX));
    assert_eq!(budget, before);

    assert!(budget.add_tokens(ContextSource::PaperTrail, 100));
    assert!(budget.add_tokens(ContextSource::Obsidian, 200));
    assert_eq!(budget.total_used(), 7_500);

    budget.remove_tokens(ContextSource::Obsidian, 50);
    assert_eq!(budget.obsidian_used, 150);
    budget.remove_tokens(ContextSource::PaperTrail, 1_000);
    assert_eq!(budget.paper_trail_used, 0);
    budget.remove_tokens(ContextSource::Reference, 7_200);
    assert_eq!(budget.reference_used, 0);

    let left = budget.remaining();
    assert_eq!(left.paper_trail, 28_800);
    assert_eq!(left.obsidian, 14_250);
    assert_eq!(left.reference, 7_200);
    assert_eq!(left.reasoning, 21_600);
}

#[test]
fn budget_status_shows_every_source() {
    let mut budget = ContextBudget::at(SessionClassification::Fit, 77);
    budget.paper_trail_used = 14_400;
    budget.obsidian_used = 20_000;
    let status = BudgetStatus::from_budget(&budget);
    assert_eq!(status.classification, SessionClassification::Fit);
    assert_eq!(status.total_budget, 72_000);
    assert_eq!(status.total_used, 34_400);
    assert_eq!(status.usage_percentage, 68);
    assert_eq!(status.threshold_status, ThresholdStatus::Normal);
    assert_eq!(status.paper_trail, source_status(28_800, 14_400));
    assert_eq!(status.paper_trail.percentage, 50);
    assert_eq!(status.paper_trail.remaining, 14_400);
    assert_eq!(status.obsidian.percentage, 138);
    assert_eq!(status.obsidian.remaining, 0);
    assert_eq!(status.reference.percentage, 0);
    assert_eq!(status.reasoning_budget, 21_600);
    assert_eq!(status.last_audit, 77);
    // A usage of 256 hundredths or more keeps its low eight bits.
    assert_eq!(source_status(100, 300).percentage, 44);
    assert_eq!(source_status(0, 300).percentage, 0);
}

// ---- classification ----

#[test]
fn test_classification_allocations_sum_to_100() {
    for classification in [
        SessionClassification::Fit,
        SessionClassification::Adjacent,
        SessionClassification::NetNew,
        SessionClassification::Quick,
    ] {
        let alloc = classification.get_allocation();
        let total =
            alloc.paper_trail_pct + alloc.obsidian_pct + alloc.reference_pct + alloc.reasoning_pct;
        assert_eq!(total, 100, "Classification {:?} doesn't sum to 100", classification);
    }
}

#[test]
fn test_quick_has_no_paper_trail() {
    let alloc = SessionClassification::Quick.get_allocation();
    assert_eq!(alloc.paper_trail_pct, 0);
}

#[test]
fn test_fit_has_high_paper_trail() {
    let alloc = SessionClassification::Fit.get_allocation();
    assert!(alloc.paper_trail_pct >= 30);
}

#[test]
fn test_classify_high_similarity() {
    let signals = ClassificationSignals {
        thesis_similarities: vec![850_000],
        ..Default::default()
    };
    assert_eq!(classify_session(&signals), SessionClassification::Fit);
}

#[test]
fn test_classify_user_quick() {
    let signals = ClassificationSignals {
        user_marked_quick: true,
        thesis_similarities: vec![900_000], // Even high similarity
        ..Default::default()
    };
    assert_eq!(classify_session(&signals), SessionClassification::Quick);
}

#[test]
fn test_token_budgets() {
    let alloc = SessionClassification::Fit.get_allocation();
    let budgets = alloc.to_token_budgets(72000); // 72K working budget

    // FIT: 40% paper trail = 28,800
    assert_eq!(budgets.paper_trail, 28800);
    // 20% obsidian = 14,400
    assert_eq!(budgets.obsidian, 14400);
}

#[test]
fn classification_follows_the_thresholds() {
    let base = ClassificationSignals::default();
    assert_eq!(classify_session(&base), SessionClassification::Quick);

    let with = |similarities: Vec<u32>| ClassificationSignals {
        thesis_similarities: similarities,
        ..Default::default()
    };
    assert_eq!(classify_session(&with(vec![800_000])), SessionClassification::Fit);
    assert_eq!(classify_session(&with(vec![799_999])), SessionClassification::Adjacent);
    assert_eq!(classify_session(&with(vec![100_000, 400_000, 0])), SessionClassification::Adjacent);
    assert_eq!(classify_session(&with(vec![399_999])), SessionClassification::Quick);

    let trail = ClassificationSignals { has_paper_trail: true, ..Default::default() };
    assert_eq!(classify_session(&trail), SessionClassification::Adjacent);
    let keywords = ClassificationSignals { keywords: vec!["x".to_string()], ..Default::default() };
    assert_eq!(classify_session(&keywords), SessionClassification::NetNew);
    let related = ClassificationSignals {
        related_thesis_ids: vec!["t1".to_string()],
        thesis_similarities: vec![399_999],
        ..Default::default()
    };
    assert_eq!(classify_session(&related), SessionClassification::NetNew);
    assert_eq!(max_similarity(&vec![]), 0);
    assert_eq!(max_similarity(&vec![3, 9, 2]), 9);
    assert_eq!(SessionClassification::default(), SessionClassification::NetNew);
}

#[test]
fn allocations_and_names_are_fixed() {
    let net_new = SessionClassification::NetNew.get_allocation();
    assert_eq!(
        net_new,
        BudgetAllocation { paper_trail_pct: 5, obsidian_pct: 15, reference_pct: 20, reasoning_pct: 60 }
    );
    let adjacent = SessionClassification::Adjacent.get_allocation();
    assert_eq!(
        adjacent,
        BudgetAllocation { paper_trail_pct: 20, obsidian_pct: 30, reference_pct: 20, reasoning_pct: 30 }
    );
    assert_eq!(SessionClassification::Fit.display_name(), "Fit (matches thesis)");
    assert_eq!(SessionClassification::Adjacent.display_name(), "Adjacent (related)");
    assert_eq!(SessionClassification::NetNew.display_name(), "Net New (fresh)");
    assert_eq!(SessionClassification::Quick.display_name(), "Quick (ephemeral)");
}

#[test]
fn token_budgets_round_down_and_total() {
    let budgets = SessionClassification::NetNew.get_allocation().to_token_budgets(99);
    assert_eq!(
        budgets,
        TokenBudgets { paper_trail: 4, obsidian: 14, reference: 19, reasoning: 59 }
    );
    assert_eq!(budgets.total(), 96);
    assert_eq!(budgets.checked_total(), Some(96));
    let huge = TokenBudgets { paper_trail: u32::MAX, obsidian: 1, reference: 0, reasoning: 0 };
    assert_eq!(huge.checked_total(), None);
    // A share above one hundred hundredths keeps the low 32 bits.
    let odd = BudgetAllocation { paper_trail_pct: 200, obsidian_pct: 0, reference_pct: 0, reasoning_pct: 0 };
    assert_eq!(odd.to_token_budgets(u32::MAX).paper_trail, 4_294_967_294);
}

// ---- compression ----

#[test]
fn test_tier_target_tokens() {
    assert_eq!(PaperTrailTier::Head.target_tokens(), 500);
    assert_eq!(PaperTrailTier::Archived.target_tokens(), 0);
}

#[test]
fn test_tier_auto_loaded() {
    assert!(PaperTrailTier::Head.is_auto_loaded());
    assert!(PaperTrailTier::KeyEvidence.is_auto_loaded());
    assert!(!PaperTrailTier::Recent.is_auto_loaded());
}

#[test]
fn test_tier_compressible() {
    assert!(!PaperTrailTier::Head.is_compressible());
    assert!(!PaperTrailTier::KeyEvidence.is_compressible());
    assert!(PaperTrailTier::Recent.is_compressible());
    assert!(PaperTrailTier::Historical.is_compressible());
}

#[test]
fn test_compression_trigger_detection() {
    let now = now_millis();
    let eight_days_ago = now - 8 * DAY_MILLIS;

    let paper_trail = PaperTrail {
        recent_sessions: vec![SessionSummary {
            session_id: "old_session".to_string(),
            session_date: eight_days_ago,
            last_referenced: None,
            summary: "An old session".to_string(),
            key_outcomes: vec![],
            token_count: 500,
            tier: PaperTrailTier::Recent,
        }],
        ..Default::default()
    };

    let triggers = check_compression_triggers(&paper_trail, false, 0);
    assert!(!triggers.is_empty());

    match &triggers[0] {
        CompressionTrigger::SessionToSummary { session_id, age_days } => {
            assert_eq!(session_id, "old_session");
            assert!(*age_days >= 7);
        }
        _ => panic!("Expected SessionToSummary trigger"),
    }
}

#[test]
fn test_budget_pressure_triggers() {
    let paper_trail = PaperTrail {
        historical_summaries: vec![HistoricalSummary {
            session_ids: vec!["s1".to_string()],
            start_date: now_millis(),
            end_date: now_millis(),
            summary: "Historical".to_string(),
            token_count: 500,
        }],
        ..Default::default()
    };

    let triggers = check_compression_triggers(&paper_trail, true, 1000);
    assert!(triggers.iter().any(|t| matches!(t, CompressionTrigger::ForceCompress { .. })));
}

fn summary(id: &str, date: i64, seen: Option<i64>, tier: PaperTrailTier, tokens: u32) -> SessionSummary {
    SessionSummary {
        session_id: id.to_string(),
        session_date: date,
        last_referenced: seen,
        summary: format!("summary of {}", id),
        key_outcomes: vec![],
        token_count: tokens,
        tier,
    }
}

#[test]
fn triggers_come_in_order_and_with_exact_ages() {
    let now = 100 * DAY_MILLIS;
    let trail = PaperTrail {
        recent_sessions: vec![
            // Seven days to the millisecond: due for a summary.
            summary("a", now - 7 * DAY_MILLIS, None, PaperTrailTier::Recent, 10),
            // One millisecond short of seven days.
            summary("b", now - 7 * DAY_MILLIS + 1, None, PaperTrailTier::Recent, 10),
            // Old, but referenced yesterday.
            summary("c", 0, Some(now - DAY_MILLIS), PaperTrailTier::Recent, 10),
            // Forty days and a half: summary and archive.
            summary("d", 0, Some(now - 40 * DAY_MILLIS - DAY_MILLIS / 2), PaperTrailTier::Recent, 10),
            // Thirty days, but not in the recent tier: archive only.
            summary("e", now - 30 * DAY_MILLIS, None, PaperTrailTier::Historical, 10),
            // In the future.
            summary("f", now + 50 * DAY_MILLIS, None, PaperTrailTier::Recent, 10),
        ],
        ..PaperTrail::empty_at(now)
    };
    let triggers = compression_triggers_at(&trail, true, 250, now);
    assert_eq!(triggers.len(), 4);
    match &triggers[0] {
        CompressionTrigger::SessionToSummary { session_id, age_days } => {
            assert_eq!(session_id, "a");
            assert_eq!(*age_days, 7);
        }
        _ => panic!("expected a summary trigger for a"),
    }
    match &triggers[1] {
        CompressionTrigger::SessionToSummary { session_id, age_days } => {
            assert_eq!(session_id, "d");
            assert_eq!(*age_days, 40);
        }
        _ => panic!("expected a summary trigger for d"),
    }
    match &triggers[2] {
        CompressionTrigger::SummaryToArchive { session_ids, reason } => {
            assert_eq!(session_ids, &vec!["d".to_string(), "e".to_string()]);
            assert!(matches!(reason, dialectic::context::compression::ArchiveReason::Age));
        }
        _ => panic!("expected an archive trigger"),
    }
    // No historical summaries: the recent tier gives up tokens.
    match &triggers[3] {
        CompressionTrigger::ForceCompress { tier, tokens_to_free } => {
            assert_eq!(*tier, PaperTrailTier::Recent);
            assert_eq!(*tokens_to_free, 250);
        }
        _ => panic!("expected a forced compression"),
    }

    // Without pressure, or with nothing to free, nothing is forced.
    assert_eq!(compression_triggers_at(&trail, false, 250, now).len(), 3);
    assert_eq!(compression_triggers_at(&trail, true, 0, now).len(), 3);
    // An empty trail sets nothing off, under pressure or not.
    assert!(compression_triggers_at(&PaperTrail::empty_at(now), true, 10, now).is_empty());
}

#[test]
fn days_since_seen_counts_whole_days() {
    let session = summary("a", 0, None, PaperTrailTier::Recent, 1);
    assert_eq!(days_since_seen(&session, 7 * DAY_MILLIS - 1, 7), None);
    assert_eq!(days_since_seen(&session, 7 * DAY_MILLIS, 7), Some(7));
    assert_eq!(days_since_seen(&session, 9 * DAY_MILLIS - 1, 7), Some(8));
    assert_eq!(days_since_seen(&session, -1, 7), None);
    let extreme = summary("b", i64::MIN, None, PaperTrailTier::Recent, 1);
    assert_eq!(days_since_seen(&extreme, i64::MAX, 30), Some(213_503_982_334));
}

#[test]
fn tiers_sum_their_tokens() {
    let mut trail = PaperTrail::empty_at(0);
    trail.head.token_count = 5;
    trail.key_evidence = vec![
        KeyClaim {
            id: "k1".to_string(),
            content: "c".to_string(),
            source: "s".to_string(),
            added_at: 0,
            reason: None,
            token_count: 7,
        },
        KeyClaim {
            id: "k2".to_string(),
            content: "c".to_string(),
            source: "s".to_string(),
            added_at: 0,
            reason: Some("r".to_string()),
            token_count: 11,
        },
    ];
    trail.recent_sessions = vec![
        summary("a", 0, None, PaperTrailTier::Recent, 100),
        summary("b", 0, None, PaperTrailTier::Recent, 200),
    ];
    trail.historical_summaries = vec![HistoricalSummary {
        session_ids: vec![],
        start_date: 0,
        end_date: 0,
        summary: String::new(),
        token_count: 1000,
    }];
    assert_eq!(trail.tokens_by_tier(PaperTrailTier::Head), 5);
    assert_eq!(trail.tokens_by_tier(PaperTrailTier::KeyEvidence), 18);
    assert_eq!(trail.tokens_by_tier(PaperTrailTier::Recent), 300);
    assert_eq!(trail.tokens_by_tier(PaperTrailTier::Historical), 1000);
    assert_eq!(trail.tokens_by_tier(PaperTrailTier::Archived), 0);
    assert_eq!(trail.total_tokens(), 1323);

    trail.recent_sessions.push(summary("c", 0, None, PaperTrailTier::Recent, u32::MAX));
    assert_eq!(trail.tokens_in(PaperTrailTier::Recent), 300 + u32::MAX as u128);

    assert_eq!(PaperTrailTier::KeyEvidence.target_tokens(), 1500);
    assert_eq!(PaperTrailTier::Recent.target_tokens(), 3000);
    assert_eq!(PaperTrailTier::Historical.target_tokens(), 1000);
    assert!(!PaperTrailTier::Archived.is_auto_loaded());
    assert!(!PaperTrailTier::Archived.is_compressible());
}

#[test]
fn compression_requests_are_filled_in() {
    let request = CompressionRequest::session_to_summary("s1", "what was said");
    assert_eq!(request.source_tier, PaperTrailTier::Recent);
    assert_eq!(request.target_tier, PaperTrailTier::Historical);
    assert_eq!(request.content, "what was said");
    assert_eq!(request.max_output_tokens, 500);
    assert_eq!(request.preserve, vec!["decisions", "outcomes", "key_claims"]);

    let summaries = vec![
        summary("a", 0, None, PaperTrailTier::Historical, 1),
        summary("b", 0, None, PaperTrailTier::Historical, 1),
        summary("c", 0, None, PaperTrailTier::Historical, 1),
    ];
    let archive = CompressionRequest::summary_to_archive(&summaries);
    assert_eq!(archive.source_tier, PaperTrailTier::Historical);
    assert_eq!(archive.target_tier, PaperTrailTier::Archived);
    assert_eq!(archive.content, "[a] summary of a\n\n[b] summary of b\n\n[c] summary of c");
    assert_eq!(archive.max_output_tokens, 200);
    assert_eq!(archive.preserve, vec!["key_decisions"]);
    assert_eq!(CompressionRequest::summary_to_archive(&[]).content, "");
    assert_eq!(CompressionRequest::summary_to_archive(&summaries[..1]).content, "[a] summary of a");
}

// ---- tokens ----

#[test]
fn test_count_tokens_empty() {
    let mut cache = None;
    assert_eq!(count_tokens(&mut cache, ""), 0);
}

#[test]
fn test_count_tokens_simple() {
    let mut cache = None;
    let count = count_tokens(&mut cache, "Hello, world!");
    assert!(count > 0);
    assert!(count < 10); // Should be around 4 tokens
}

#[test]
fn test_count_tokens_cached() {
    let mut cache = None;
    let text = "This is a test sentence for caching.";
    let count1 = count_tokens(&mut cache, text);
    let count2 = count_tokens(&mut cache, text);
    assert_eq!(count1, count2);
}

#[test]
fn test_estimate_tokens_quick() {
    let mut cache = None;
    let text = "Hello world this is a test";
    let estimate = estimate_tokens_quick(text);
    let actual = count_tokens(&mut cache, text);
    // Estimate should be within 2x of actual
    assert!(estimate <= actual * 2);
    assert!(estimate >= actual / 2);
}

#[test]
fn test_exceeds_token_limit() {
    let mut cache = None;
    let short_text = "Hi";
    let long_text = "This is a much longer piece of text that should definitely exceed a very small token limit.";

    assert!(!exceeds_token_limit(&mut cache, short_text, 100));
    assert!(exceeds_token_limit(&mut cache, long_text, 5));
}

#[test]
fn quick_estimate_is_a_quarter_rounded_up() {
    assert_eq!(estimate_tokens_quick(""), 0);
    assert_eq!(estimate_tokens_quick("a"), 1);
    assert_eq!(estimate_tokens_quick("abcd"), 1);
    assert_eq!(estimate_tokens_quick("abcde"), 2);
    // Bytes count, not characters.
    assert_eq!(estimate_tokens_quick("\u{e9}\u{e9}\u{e9}"), 2);
    assert_eq!(estimate_tokens_quick("Hello world this is a test"), 7);
}

#[test]
fn the_tokenizer_counts_and_the_cache_keeps() {
    let mut cache = None;
    assert_eq!(get_cache_stats(&cache), (0, 0));
    // An empty text does not set the cache up.
    assert_eq!(count_tokens(&mut cache, ""), 0);
    assert!(cache.is_none());

    assert_eq!(count_tokens(&mut cache, "Hello, world!"), 4);
    assert_eq!(get_cache_stats(&cache), (1, 10_000));
    let hash = hash_content("Hello, world!");
    assert_eq!(cache.as_ref().unwrap().get(hash), Some(4));

    // What the cache holds under the hash of a text is its count.
    let mut primed = Some(TokenCache::new(4));
    primed.as_mut().unwrap().insert(hash, 99);
    assert_eq!(count_tokens(&mut primed, "Hello, world!"), 99);
    assert_eq!(get_cache_stats(&primed), (1, 4));

    clear_token_cache(&mut primed);
    assert_eq!(get_cache_stats(&primed), (0, 4));
    assert_eq!(count_tokens(&mut primed, "Hello, world!"), 4);
    let mut none = None;
    clear_token_cache(&mut none);
    assert!(none.is_none());
}

#[test]
fn a_batch_counts_in_turn() {
    let mut cache = None;
    let counts = count_tokens_batch(&mut cache, &["Hello, world!", "", "Hello, world!", "Hi"]);
    assert_eq!(counts, vec![4, 0, 4, 1]);
    assert_eq!(get_cache_stats(&cache), (2, 10_000));
    assert!(count_tokens_batch(&mut cache, &[]).is_empty());
}

#[test]
fn the_limit_is_checked_by_count_between_the_estimates() {
    let mut cache = None;
    // Estimate 4, limit 4: neither below 2 nor above 8, so the 4 tokens are counted.
    assert!(!exceeds_token_limit(&mut cache, "Hello, world!", 4));
    assert_eq!(get_cache_stats(&cache), (1, 10_000));
    assert!(exceeds_token_limit(&mut cache, "Hello, world!", 3));
    // Estimate 4 is above twice the limit of 1: no count is needed.
    let mut fresh = None;
    assert!(exceeds_token_limit(&mut fresh, "Hello, world!", 1));
    assert!(fresh.is_none());
    assert!(!exceeds_token_limit(&mut fresh, "Hello, world!", u32::MAX));
    assert!(fresh.is_none());
}

#[test]
fn a_miss_settles_on_the_count_or_the_estimate() {
    let mut cache = TokenCache::new(8);
    assert_eq!(settle_count(&mut cache, 1, Some(12), 3), 12);
    assert_eq!(cache.get(1), Some(12));
    assert_eq!(settle_count(&mut cache, 2, None, 3), 3);
    assert_eq!(cache.get(2), None);
    assert_eq!(settle_count(&mut cache, 3, Some(0x1_0000_0005), 3), 5);
    assert_eq!(cache.stats(), (2, 8));
}

#[test]
fn a_full_cache_makes_room() {
    let mut cache = TokenCache::new(4);
    for key in 0..4u64 {
        cache.insert(key, key as u32 * 10);
    }
    assert_eq!(cache.stats(), (4, 4));
    cache.insert(100, 1);
    // Two of the four went, the new entry came.
    assert_eq!(cache.stats(), (3, 4));
    assert_eq!(cache.get(100), Some(1));
    let kept = (0..4u64).filter(|key| cache.get(*key) == Some(*key as u32 * 10)).count();
    assert_eq!(kept, 2);
    // An entry is replaced under its key.
    cache.insert(100, 2);
    assert_eq!(cache.get(100), Some(2));
    assert_eq!(cache.stats(), (3, 4));
    cache.clear();
    assert_eq!(cache.stats(), (0, 4));
    assert_eq!(cache.get(100), None);
    assert_ne!(hash_content("a"), hash_content("b"));
}

use dialectic::context::compression::{
    describe_trigger, pressure_of, tokens_freeable, ArchiveReason,
};

#[test]
fn pressure_asks_to_come_down_to_the_target() {
    let mut budget = ContextBudget::at(SessionClassification::Fit, 0);
    assert_eq!(pressure_of(&budget), (false, 0));
    budget.paper_trail_used = 35_279;
    assert_eq!(pressure_of(&budget), (false, 0));
    // 70 hundredths of 50,400 are under pressure, but below the target of 46,800.
    budget.paper_trail_used = 35_280;
    assert_eq!(pressure_of(&budget), (true, 0));
    budget.paper_trail_used = 50_000;
    assert_eq!(pressure_of(&budget), (true, 3_200));
}

#[test]
fn triggers_are_described_and_summed() {
    let triggers = vec![
        CompressionTrigger::NoneNeeded,
        CompressionTrigger::SessionToSummary { session_id: "s1".to_string(), age_days: 9 },
        CompressionTrigger::SessionToSummary { session_id: "s2".to_string(), age_days: -3 },
        CompressionTrigger::SummaryToArchive {
            session_ids: vec!["a".to_string(), "b".to_string(), "c".to_string()],
            reason: ArchiveReason::Age,
        },
        CompressionTrigger::ForceCompress { tier: PaperTrailTier::Historical, tokens_to_free: 1234 },
    ];
    let texts: Vec<String> = triggers.iter().map(describe_trigger).collect();
    assert_eq!(
        texts,
        vec![
            "No compression needed",
            "Session s1 is 9 days old - consider summarizing",
            "Session s2 is -3 days old - consider summarizing",
            "Archive 3 sessions (Age)",
            "Force compress Historical tier to free 1234 tokens",
        ]
    );
    assert_eq!(tokens_freeable(&triggers), 500 + 500 + 900 + 1234);
    assert_eq!(tokens_freeable(&vec![]), 0);
    assert_eq!(ArchiveReason::ConfidenceAdvancement.label(), "ConfidenceAdvancement");
    assert_eq!(ArchiveReason::BudgetPressure.label(), "BudgetPressure");
    assert_eq!(ArchiveReason::UserRequested.label(), "UserRequested");
    assert_eq!(PaperTrailTier::KeyEvidence.label(), "KeyEvidence");
}

#[test]
fn a_cache_of_capacity_one_drops_nothing() {
    // Half of the capacity is no entry: the cache only grows.
    let mut small = TokenCache::new(1);
    small.insert(1, 10);
    small.insert(2, 20);
    small.insert(3, 30);
    assert_eq!(small.stats(), (3, 1));
    assert_eq!(small.get(1), Some(10));
    let mut none = TokenCache::new(0);
    none.insert(7, 70);
    assert_eq!(none.stats(), (1, 0));
    // At capacity three one entry goes before the fourth comes.
    let mut three = TokenCache::new(3);
    for key in 0..4u64 {
        three.insert(key, 1);
    }
    assert_eq!(three.stats(), (3, 3));
    assert_eq!(three.get(3), Some(1));
}

fn millis_now() -> i64 {
    match std::time::SystemTime::now().duration_since(std::time::UNIX_EPOCH) {
        Ok(since) => since.as_millis() as i64,
        Err(before) => -(before.duration().as_millis() as i64),
    }
}

#[test]
fn a_new_budget_is_audited_at_the_time_of_the_clock() {
    let earlier = millis_now();
    let budget = ContextBudget::new(SessionClassification::NetNew);
    let later = millis_now();
    assert!(earlier - 1 <= budget.last_audit && budget.last_audit <= later + 1);
    let mut budget = ContextBudget::at(SessionClassification::Quick, 5);
    budget.record_audit();
    assert!(earlier - 1 <= budget.last_audit && budget.last_audit <= millis_now() + 1);
}
