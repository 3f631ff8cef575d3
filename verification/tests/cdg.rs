use dialectic::cdg::metrics::{coherence, density};
use dialectic::{
    claim_strata, compute_metrics, compute_pass_diff, compute_strata, diff_against_latest, edge_weight,
    find_orphans, resolution_bonus, take_snapshot, type_weight, CdgEdge, CdgMetrics, Claim,
    ClaimStratum, EdgeType, ResolutionStatus, UNIT,
};

fn now_millis() -> i64 {
    chrono::Utc::now().timestamp_millis()
}

fn make_claim(id: &str) -> Claim {
    Claim {
        id: id.to_string(),
        content: format!("Claim {}", id),
        source_id: "src1".to_string(),
        marker: None,
        created_at: now_millis(),
    }
}

/// A weight given as a decimal fraction, in millionths.
fn millionths(weight: f32) -> u32 {
    (weight as f64 * 1_000_000.0).round() as u32
}

/// A score in millionths as a decimal fraction.
fn fraction(score: u64) -> f32 {
    (score as f64 / UNIT as f64) as f32
}

fn make_edge(src: &str, tgt: &str, edge_type: EdgeType, weight: f32) -> CdgEdge {
    CdgEdge {
        source_claim_id: src.to_string(),
        target_claim_id: tgt.to_string(),
        edge_type,
        weight: millionths(weight),
        resolution: None,
        created_at: now_millis(),
    }
}

fn make_tension(src: &str, tgt: &str, weight: f32, resolution: Option<ResolutionStatus>) -> CdgEdge {
    let mut edge = make_edge(src, tgt, EdgeType::Tension, weight);
    edge.resolution = resolution;
    edge
}

/// A small graph:
///   A --REQUIRE--> B --REQUIRE--> C (core)
///   D --SUPPORT--> B
///   E (orphan)
fn fixture() -> (Vec<Claim>, Vec<CdgEdge>) {
    let claims = vec![
        make_claim("A"),
        make_claim("B"),
        make_claim("C"),
        make_claim("D"),
        make_claim("E"),
    ];
    let edges = vec![
        make_edge("A", "B", EdgeType::Require, 1.0),
        make_edge("B", "C", EdgeType::Require, 1.0),
        make_edge("D", "B", EdgeType::Support, 0.7),
    ];
    (claims, edges)
}

#[test]
fn test_compute_strata() {
    let (claims, edges) = fixture();
    let strata = compute_strata(&claims, &edges);

    assert_eq!(strata.get("C"), Some(ClaimStratum::Core));
    assert_eq!(strata.get("B"), Some(ClaimStratum::Structure));
    assert_eq!(strata.get("A"), Some(ClaimStratum::Structure));
    assert_eq!(strata.get("D"), Some(ClaimStratum::Evidential));
    assert_eq!(strata.get("E"), Some(ClaimStratum::Peripheral));
}

#[test]
fn test_find_orphans() {
    let (claims, edges) = fixture();
    let orphans = find_orphans(&claims, &edges);

    assert_eq!(orphans, vec!["E".to_string()]);
}

#[test]
fn test_compute_metrics() {
    let (claims, edges) = fixture();
    let metrics = compute_metrics(&claims, &edges);

    assert_eq!(metrics.claim_count, 5);
    assert_eq!(metrics.edge_count, 3);
    assert_eq!(metrics.tension_count, 0);
    // TRR = 1.0 when no tensions
    assert!((fraction(metrics.trr) - 1.0).abs() < 0.001);
    // Orphan ratio = 1/5 = 0.2
    assert!((fraction(metrics.orphan_ratio) - 0.2).abs() < 0.001);
    // Core reachability: A, B, C can reach core, D->B->C also reaches core = 4/5
    assert!((fraction(metrics.core_reachability) - 0.8).abs() < 0.001);
}

#[test]
fn test_compute_metrics_empty() {
    let metrics = compute_metrics(&[], &[]);
    assert_eq!(metrics.claim_count, 0);
    assert_eq!(fraction(metrics.coherence), 0.0);
}

#[test]
fn fixture_metrics_are_exact() {
    let (claims, edges) = fixture();
    let metrics = compute_metrics(&claims, &edges);

    // Total weight 1.0 + 1.0 + 0.7 * 0.7 = 2.49 over 5 * 4 = 20 pairs.
    assert_eq!(metrics.sdd, 124_500);
    assert_eq!(metrics.orphan_ratio, 200_000);
    assert_eq!(metrics.core_reachability, 800_000);
    assert_eq!(metrics.trr, 1_000_000);
    // C is core, A and B require it: 3 of 5.
    assert_eq!(metrics.lbr, 600_000);
    // (35 * 0.1245 + 25 * 0.8 + 25 * 1.0 + 15 * 0.8) / 100
    assert_eq!(metrics.coherence, 613_575);
    assert_eq!(metrics.resolved_count, 0);
    assert_eq!(metrics.accepted_count, 0);
    assert_eq!(metrics.unresolved_count, 0);
}

#[test]
fn empty_graph_scores_zero_whatever_the_edges() {
    let edges = vec![make_edge("A", "B", EdgeType::Require, 1.0)];
    let metrics = compute_metrics(&[], &edges);
    let zero = CdgMetrics {
        sdd: 0,
        orphan_ratio: 0,
        core_reachability: 0,
        trr: 0,
        lbr: 0,
        coherence: 0,
        claim_count: 0,
        edge_count: 0,
        tension_count: 0,
        resolved_count: 0,
        accepted_count: 0,
        unresolved_count: 0,
    };
    assert_eq!(metrics, zero);
}

#[test]
fn single_claim_has_no_density() {
    let claims = vec![make_claim("A")];
    let edges = vec![make_edge("A", "A", EdgeType::Derive, 1.0)];
    let metrics = compute_metrics(&claims, &edges);
    assert_eq!(metrics.claim_count, 1);
    assert_eq!(metrics.edge_count, 1);
    assert_eq!(metrics.sdd, 0);
    assert_eq!(metrics.orphan_ratio, 0);
    assert_eq!(metrics.core_reachability, 0);
    assert_eq!(metrics.trr, UNIT);
    assert_eq!(metrics.lbr, 0);
    // (25 * 1.0 + 15 * 1.0) / 100
    assert_eq!(metrics.coherence, 400_000);
}

#[test]
fn tension_rate_counts_resolved_and_accepted() {
    let claims = vec![make_claim("A"), make_claim("B")];
    let edges = vec![
        make_tension("A", "B", 1.0, Some(ResolutionStatus::Resolved)),
        make_tension("A", "B", 1.0, Some(ResolutionStatus::Accepted)),
        make_tension("B", "A", 1.0, Some(ResolutionStatus::Unresolved)),
        make_tension("B", "A", 1.0, None),
        // Not valid: counted nowhere.
        make_tension("A", "Z", 1.0, Some(ResolutionStatus::Resolved)),
    ];
    let metrics = compute_metrics(&claims, &edges);
    assert_eq!(metrics.edge_count, 4);
    assert_eq!(metrics.tension_count, 4);
    assert_eq!(metrics.resolved_count, 1);
    assert_eq!(metrics.accepted_count, 1);
    assert_eq!(metrics.unresolved_count, 2);
    assert_eq!(metrics.trr, 500_000);
    // (0.75 + 0.5 + 0.15 + 0.15) / 2
    assert_eq!(metrics.sdd, 775_000);
}

#[test]
fn tension_rate_is_whole_without_tensions() {
    let claims = vec![make_claim("A"), make_claim("B")];
    let edges = vec![
        make_edge("A", "B", EdgeType::Support, 1.0),
        // A tension that is not valid is no tension of the graph.
        make_tension("A", "Z", 1.0, None),
    ];
    let metrics = compute_metrics(&claims, &edges);
    assert_eq!(metrics.tension_count, 0);
    assert_eq!(metrics.trr, UNIT);
}

#[test]
fn core_is_the_candidate_with_more_incoming_requires() {
    // X and Y both have incoming and no outgoing REQUIRE edges; Y has two.
    let claims = vec![make_claim("X"), make_claim("Y"), make_claim("P"), make_claim("Q")];
    let edges = vec![
        make_edge("P", "X", EdgeType::Require, 1.0),
        make_edge("P", "Y", EdgeType::Require, 1.0),
        make_edge("Q", "Y", EdgeType::Require, 1.0),
    ];
    let strata = compute_strata(&claims, &edges);
    assert_eq!(strata.get("Y"), Some(ClaimStratum::Core));
    assert_eq!(strata.get("X"), Some(ClaimStratum::Peripheral));
    assert_eq!(strata.get("P"), Some(ClaimStratum::Structure));
    assert_eq!(strata.get("Q"), Some(ClaimStratum::Structure));

    // The order of the claims does not decide it.
    let reordered = vec![make_claim("Y"), make_claim("Q"), make_claim("P"), make_claim("X")];
    let strata = compute_strata(&reordered, &edges);
    assert_eq!(strata.get("Y"), Some(ClaimStratum::Core));
    assert_eq!(strata.get("X"), Some(ClaimStratum::Peripheral));
}

#[test]
fn duplicate_require_edges_count_in_the_tie_break() {
    let claims = vec![make_claim("X"), make_claim("Y"), make_claim("P")];
    let edges = vec![
        make_edge("P", "X", EdgeType::Require, 1.0),
        make_edge("P", "Y", EdgeType::Require, 1.0),
        make_edge("P", "Y", EdgeType::Require, 1.0),
    ];
    let strata = compute_strata(&claims, &edges);
    assert_eq!(strata.get("Y"), Some(ClaimStratum::Core));
}

#[test]
fn equal_candidates_resolve_to_the_first_claim() {
    let claims = vec![make_claim("P"), make_claim("X"), make_claim("Y")];
    let edges = vec![
        make_edge("P", "Y", EdgeType::Require, 1.0),
        make_edge("P", "X", EdgeType::Require, 1.0),
    ];
    let strata = claim_strata(&claims, &edges);
    assert_eq!(
        strata,
        vec![ClaimStratum::Structure, ClaimStratum::Core, ClaimStratum::Peripheral]
    );
}

#[test]
fn no_core_makes_every_claim_peripheral() {
    // A cycle of REQUIRE edges: every claim has an outgoing one.
    let claims = vec![make_claim("A"), make_claim("B"), make_claim("C")];
    let edges = vec![
        make_edge("A", "B", EdgeType::Require, 1.0),
        make_edge("B", "A", EdgeType::Require, 1.0),
        make_edge("C", "A", EdgeType::Support, 1.0),
    ];
    let strata = compute_strata(&claims, &edges);
    assert_eq!(strata.len(), 3);
    assert_eq!(strata.get("A"), Some(ClaimStratum::Peripheral));
    assert_eq!(strata.get("B"), Some(ClaimStratum::Peripheral));
    assert_eq!(strata.get("C"), Some(ClaimStratum::Peripheral));
    assert_eq!(strata.get("Z"), None);
    let metrics = compute_metrics(&claims, &edges);
    assert_eq!(metrics.core_reachability, 0);
    assert_eq!(metrics.lbr, 0);
}

#[test]
fn support_of_the_core_alone_is_not_evidential() {
    let claims = vec![make_claim("A"), make_claim("C"), make_claim("S"), make_claim("T")];
    let edges = vec![
        make_edge("A", "C", EdgeType::Require, 1.0),
        make_edge("S", "C", EdgeType::Support, 1.0),
        make_edge("T", "A", EdgeType::Support, 1.0),
        // A claim of the structure stays in it, whatever it supports.
        make_edge("A", "A", EdgeType::Support, 1.0),
    ];
    let strata = compute_strata(&claims, &edges);
    assert_eq!(strata.get("C"), Some(ClaimStratum::Core));
    assert_eq!(strata.get("A"), Some(ClaimStratum::Structure));
    assert_eq!(strata.get("S"), Some(ClaimStratum::Peripheral));
    assert_eq!(strata.get("T"), Some(ClaimStratum::Evidential));
}

#[test]
fn invalid_edges_count_for_orphans_only() {
    let (claims, mut edges) = fixture();
    let before = compute_metrics(&claims, &edges);
    assert_eq!(find_orphans(&claims, &edges), vec!["E".to_string()]);

    // "Z" is no claim: the edge is not valid, but it touches E.
    edges.push(make_edge("E", "Z", EdgeType::Require, 1.0));
    let after = compute_metrics(&claims, &edges);

    assert_eq!(after.edge_count, before.edge_count);
    assert_eq!(after.sdd, before.sdd);
    assert_eq!(after.core_reachability, before.core_reachability);
    assert_eq!(after.lbr, before.lbr);
    assert_eq!(after.trr, before.trr);
    assert!(find_orphans(&claims, &edges).is_empty());
    assert_eq!(after.orphan_ratio, 0);
    assert_eq!(compute_strata(&claims, &edges).get("E"), Some(ClaimStratum::Peripheral));
}

#[test]
fn core_reachability_follows_edges_of_every_type() {
    let claims = vec![make_claim("A"), make_claim("C"), make_claim("Q"), make_claim("R")];
    let edges = vec![
        make_edge("A", "C", EdgeType::Require, 1.0),
        make_edge("Q", "A", EdgeType::Qualify, 1.0),
        make_edge("C", "R", EdgeType::Derive, 1.0),
    ];
    let metrics = compute_metrics(&claims, &edges);
    // A, C and Q reach C; R is reached from C but does not reach it.
    assert_eq!(metrics.core_reachability, 750_000);
    // Only A requires C.
    assert_eq!(metrics.lbr, 500_000);
    assert_eq!(metrics.orphan_ratio, 0);
}

#[test]
fn metrics_are_repeatable() {
    let (claims, edges) = fixture();
    let first = compute_metrics(&claims, &edges);
    let second = compute_metrics(&claims, &edges);
    assert_eq!(first, second);
}

#[test]
fn pass_diff_subtracts_every_score() {
    let (claims, edges) = fixture();
    let current = compute_metrics(&claims, &edges);
    let previous = CdgMetrics {
        sdd: 200_000,
        orphan_ratio: 100_000,
        core_reachability: 900_000,
        trr: 500_000,
        lbr: 600_000,
        coherence: u64::MAX,
        ..current
    };
    let snapshot = take_snapshot("pass-1".to_string(), previous, now_millis());
    let diff = compute_pass_diff(&current, &snapshot);

    assert_eq!(diff.previous_pass_id, "pass-1");
    assert_eq!(diff.current, current);
    assert_eq!(diff.previous, previous);
    assert_eq!(diff.delta_sdd, 124_500 - 200_000);
    assert_eq!(diff.delta_orphan_ratio, 100_000);
    assert_eq!(diff.delta_core_reachability, -100_000);
    assert_eq!(diff.delta_trr, 500_000);
    assert_eq!(diff.delta_lbr, 0);
    assert_eq!(diff.delta_coherence, 613_575 - u64::MAX as i128);
}

#[test]
fn diff_against_latest_takes_the_last_snapshot() {
    let (claims, edges) = fixture();
    let current = compute_metrics(&claims, &edges);
    assert!(diff_against_latest(&current, &[]).is_none());

    let empty = compute_metrics(&[], &[]);
    let snapshots = vec![
        take_snapshot("first".to_string(), current, 1),
        take_snapshot("second".to_string(), empty, 2),
    ];
    let diff = diff_against_latest(&current, &snapshots).unwrap();
    assert_eq!(diff.previous_pass_id, "second");
    assert_eq!(diff.delta_coherence, 613_575);
}

#[test]
fn edge_weights_follow_the_tables() {
    assert_eq!(type_weight(EdgeType::Require), 1_000_000);
    assert_eq!(type_weight(EdgeType::Derive), 900_000);
    assert_eq!(type_weight(EdgeType::Support), 700_000);
    assert_eq!(type_weight(EdgeType::Tension), 500_000);
    assert_eq!(type_weight(EdgeType::Qualify), 300_000);

    let resolved = make_tension("A", "B", 1.0, Some(ResolutionStatus::Resolved));
    let accepted = make_tension("A", "B", 1.0, Some(ResolutionStatus::Accepted));
    let unresolved = make_tension("A", "B", 1.0, Some(ResolutionStatus::Unresolved));
    let open = make_tension("A", "B", 1.0, None);
    assert_eq!(resolution_bonus(&resolved), 1_500_000);
    assert_eq!(resolution_bonus(&accepted), 1_000_000);
    assert_eq!(resolution_bonus(&unresolved), 300_000);
    assert_eq!(resolution_bonus(&open), 300_000);

    // The resolution of an edge that is no tension does not count.
    let mut support = make_edge("A", "B", EdgeType::Support, 0.5);
    support.resolution = Some(ResolutionStatus::Resolved);
    assert_eq!(resolution_bonus(&support), 1_000_000);
    assert_eq!(edge_weight(&support), 350_000);

    assert_eq!(edge_weight(&resolved), 750_000);
    assert_eq!(edge_weight(&accepted), 500_000);
    assert_eq!(edge_weight(&open), 150_000);
    assert_eq!(edge_weight(&make_edge("A", "B", EdgeType::Require, 1.0)), 1_000_000);
    assert_eq!(edge_weight(&make_edge("A", "B", EdgeType::Qualify, 0.333333)), 99_999);
}

#[test]
fn density_is_capped_and_coherence_is_a_weighted_mean() {
    assert_eq!(density(10, 0), 0);
    assert_eq!(density(10, 1), 0);
    assert_eq!(density(2_490_000, 5), 124_500);
    assert_eq!(density(u128::MAX, 2), u64::MAX);
    assert_eq!(coherence(1_000_000, 1_000_000, 1_000_000, 0), 1_000_000);
    assert_eq!(coherence(0, 0, 0, 1_000_000), 0);
    // Density above one whole lifts coherence above one whole.
    assert_eq!(coherence(3_000_000, 1_000_000, 1_000_000, 0), 1_700_000);
}

#[test]
fn claims_that_share_an_id_share_a_stratum() {
    let claims = vec![make_claim("A"), make_claim("C"), make_claim("A")];
    let edges = vec![make_edge("A", "C", EdgeType::Require, 1.0)];
    let list = claim_strata(&claims, &edges);
    assert_eq!(list, vec![ClaimStratum::Structure, ClaimStratum::Core, ClaimStratum::Structure]);
    let table = compute_strata(&claims, &edges);
    assert_eq!(table.len(), 2);
    assert_eq!(table.id_at(0), "A");
    assert_eq!(table.stratum_at(1), ClaimStratum::Core);
}

use dialectic::cdg::input::{
    clamp_weight, edge_from_entry, new_edge, resolve_tension, settle_tension, EdgeEntry,
    EdgeInputError, ResolveError,
};

#[test]
fn edges_are_built_from_what_is_entered() {
    let (claims, _) = fixture();
    let edge = new_edge(&claims, "A", "B", "Require", 700_000, None, 42).unwrap();
    assert_eq!(edge.source_claim_id, "A");
    assert_eq!(edge.target_claim_id, "B");
    assert_eq!(edge.edge_type, EdgeType::Require);
    assert_eq!(edge.weight, 700_000);
    assert_eq!(edge.resolution, None);
    assert_eq!(edge.created_at, 42);

    // A tension without a resolution is unresolved; the weight is clamped.
    let edge = new_edge(&claims, "A", "A", "TENSION", 2_000_000, None, 0).unwrap();
    assert_eq!(edge.edge_type, EdgeType::Tension);
    assert_eq!(edge.resolution, Some(ResolutionStatus::Unresolved));
    assert_eq!(edge.weight, 1_000_000);
    let edge = new_edge(&claims, "E", "D", "tension", -5, Some("Accepted"), 0).unwrap();
    assert_eq!(edge.resolution, Some(ResolutionStatus::Accepted));
    assert_eq!(edge.weight, 0);
    let edge = new_edge(&claims, "E", "D", "support", -5, None, 0).unwrap();
    assert_eq!(edge.resolution, None);
    assert_eq!(edge.weight, 0);
    assert_eq!(new_edge(&claims, "A", "B", "derive", 1, None, 0).unwrap().edge_type, EdgeType::Derive);
    assert_eq!(new_edge(&claims, "A", "B", "qualify", 1, None, 0).unwrap().edge_type, EdgeType::Qualify);

    // The checks come in order: source, target, type, name of the
    // resolution, resolution on an edge that is no tension.
    match new_edge(&claims, "Z", "Y", "bogus", 0, Some("bogus"), 0) {
        Err(EdgeInputError::SourceNotFound(id)) => assert_eq!(id, "Z"),
        _ => panic!("expected the source to be missed"),
    }
    match new_edge(&claims, "A", "Y", "bogus", 0, Some("bogus"), 0) {
        Err(EdgeInputError::TargetNotFound(id)) => assert_eq!(id, "Y"),
        _ => panic!("expected the target to be missed"),
    }
    match new_edge(&claims, "A", "B", "Bogus", 0, Some("bogus"), 0) {
        Err(EdgeInputError::UnknownEdgeType(name)) => assert_eq!(name, "bogus"),
        _ => panic!("expected an unknown edge type"),
    }
    match new_edge(&claims, "A", "B", "support", 0, Some("Done"), 0) {
        Err(EdgeInputError::UnknownResolution(name)) => assert_eq!(name, "done"),
        _ => panic!("expected an unknown resolution"),
    }
    match new_edge(&claims, "A", "B", "support", 0, Some("Accepted"), 0) {
        Err(EdgeInputError::ResolutionNotAllowed(kind)) => assert_eq!(kind, EdgeType::Support),
        _ => panic!("expected the resolution to be refused"),
    }
    // An entry is taken as it stands: its names are in lower case already.
    let entry = EdgeEntry { source: "A", target: "B", edge_type: "Support", weight: 1, resolution: None };
    assert!(matches!(edge_from_entry(&claims, &entry, 0), Err(EdgeInputError::UnknownEdgeType(_))));
    assert_eq!(clamp_weight(i64::MIN), 0);
    assert_eq!(clamp_weight(1_000_000), 1_000_000);
    assert_eq!(clamp_weight(1_000_001), 1_000_000);
    assert_eq!(clamp_weight(i64::MAX), 1_000_000);
}

#[test]
fn only_tensions_are_resolved() {
    let mut edges = vec![
        make_edge("A", "B", EdgeType::Require, 1.0),
        make_tension("A", "B", 0.5, Some(ResolutionStatus::Unresolved)),
    ];
    match resolve_tension(&mut edges, 2, "resolved") {
        Err(ResolveError::IndexOutOfRange(index, len)) => assert_eq!((index, len), (2, 2)),
        _ => panic!("expected the index to be refused"),
    }
    match resolve_tension(&mut edges, 0, "resolved") {
        Err(ResolveError::NotTension(index, edge_type)) => {
            assert_eq!((index, edge_type), (0, EdgeType::Require))
        }
        _ => panic!("expected the edge to be refused"),
    }
    match resolve_tension(&mut edges, 1, "Unresolved") {
        Err(ResolveError::UnknownStatus(name)) => assert_eq!(name, "unresolved"),
        _ => panic!("expected the status to be refused"),
    }
    assert_eq!(edges[1].resolution, Some(ResolutionStatus::Unresolved));
    resolve_tension(&mut edges, 1, "RESOLVED").unwrap();
    assert_eq!(edges[1].resolution, Some(ResolutionStatus::Resolved));
    assert_eq!(edges[1].source_claim_id, "A");
    assert_eq!(edges[1].weight, 500_000);
    settle_tension(&mut edges, 1, "accepted").unwrap();
    assert_eq!(edges[1].resolution, Some(ResolutionStatus::Accepted));
    assert!(settle_tension(&mut edges, 1, "Accepted").is_err());
    assert_eq!(edges.len(), 2);
    assert_eq!(edges[0].resolution, None);
}

#[test]
fn input_errors_and_tokens_have_texts() {
    assert_eq!(
        EdgeInputError::SourceNotFound("X".to_string()).message(),
        "Source claim 'X' not found in session"
    );
    assert_eq!(
        EdgeInputError::TargetNotFound("Y".to_string()).message(),
        "Target claim 'Y' not found in session"
    );
    assert_eq!(
        EdgeInputError::UnknownEdgeType("t".to_string()).message(),
        "Unknown edge type: 't'. Use: support, require, tension, derive, qualify"
    );
    assert_eq!(
        EdgeInputError::UnknownResolution("r".to_string()).message(),
        "Unknown resolution: 'r'. Use: unresolved, resolved, accepted"
    );
    assert_eq!(
        ResolveError::IndexOutOfRange(7, 3).message(),
        "Edge index 7 out of range (session has 3 edges)"
    );
    assert_eq!(
        ResolveError::NotTension(0, EdgeType::Support).message(),
        "Edge at index 0 is Support, not TENSION. Only tension edges can be resolved."
    );
    assert_eq!(
        ResolveError::UnknownStatus("s".to_string()).message(),
        "Unknown status: 's'. Use: resolved, accepted"
    );
    assert_eq!(EdgeType::Support.token(), "SUPPORT");
    assert_eq!(EdgeType::Require.token(), "REQUIRE");
    assert_eq!(EdgeType::Tension.token(), "TENSION");
    assert_eq!(EdgeType::Derive.token(), "DERIVE");
    assert_eq!(EdgeType::Qualify.token(), "QUALIFY");
    assert_eq!(ResolutionStatus::Unresolved.token(), "UNRESOLVED");
    assert_eq!(ResolutionStatus::Resolved.token(), "RESOLVED");
    assert_eq!(ResolutionStatus::Accepted.token(), "ACCEPTED");
    assert_eq!(ClaimStratum::Core.token(), "CORE");
    assert_eq!(ClaimStratum::Structure.token(), "STRUCTURAL");
    assert_eq!(ClaimStratum::Evidential.token(), "EVIDENTIAL");
    assert_eq!(ClaimStratum::Peripheral.token(), "PERIPHERAL");
    assert_eq!(EdgeType::from_name("require"), Some(EdgeType::Require));
    assert_eq!(EdgeType::from_name("REQUIRE"), None);
    assert_eq!(ResolutionStatus::from_name("accepted"), Some(ResolutionStatus::Accepted));
    assert_eq!(ResolutionStatus::from_name(""), None);
}

#[test]
fn only_a_tension_carries_a_resolution() {
    let (claims, _) = fixture();
    for kind in ["support", "require", "derive", "qualify", "SUPPORT", "Require"] {
        for status in ["resolved", "accepted", "unresolved", "RESOLVED"] {
            let built = new_edge(&claims, "A", "B", kind, 500_000, Some(status), 0);
            assert!(
                matches!(built, Err(EdgeInputError::ResolutionNotAllowed(_))),
                "{} with {}",
                kind,
                status
            );
        }
        let edge = new_edge(&claims, "A", "B", kind, 500_000, None, 0).unwrap();
        assert_ne!(edge.edge_type, EdgeType::Tension);
        assert_eq!(edge.resolution, None);
    }
    for (status, expected) in [
        ("resolved", ResolutionStatus::Resolved),
        ("accepted", ResolutionStatus::Accepted),
        ("unresolved", ResolutionStatus::Unresolved),
    ] {
        let edge = new_edge(&claims, "A", "B", "tension", 500_000, Some(status), 0).unwrap();
        assert_eq!(edge.resolution, Some(expected));
    }
    // The name of the resolution is checked first.
    assert!(matches!(
        new_edge(&claims, "A", "B", "support", 0, Some("done"), 0),
        Err(EdgeInputError::UnknownResolution(_))
    ));
    let entry =
        EdgeEntry { source: "A", target: "B", edge_type: "derive", weight: 1, resolution: Some("resolved") };
    match edge_from_entry(&claims, &entry, 0) {
        Err(EdgeInputError::ResolutionNotAllowed(kind)) => assert_eq!(kind, EdgeType::Derive),
        _ => panic!("expected the resolution to be refused"),
    }
    assert_eq!(
        EdgeInputError::ResolutionNotAllowed(EdgeType::Support).message(),
        "Resolution entered for a Support edge. Only tension edges carry a resolution."
    );
}

#[test]
fn resolving_a_tension_changes_nothing_else() {
    let mut edges = vec![
        make_edge("A", "B", EdgeType::Require, 1.0),
        make_tension("B", "C", 0.6, Some(ResolutionStatus::Unresolved)),
        make_tension("C", "D", 0.4, None),
    ];
    let before = edges.clone();
    resolve_tension(&mut edges, 1, "Resolved").unwrap();
    assert_eq!(edges.len(), 3);
    assert_eq!(edges[1].resolution, Some(ResolutionStatus::Resolved));
    assert_eq!(edges[1].source_claim_id, "B");
    assert_eq!(edges[1].target_claim_id, "C");
    assert_eq!(edges[1].edge_type, EdgeType::Tension);
    assert_eq!(edges[1].weight, before[1].weight);
    assert_eq!(edges[1].created_at, before[1].created_at);
    for k in [0usize, 2] {
        assert_eq!(edges[k].source_claim_id, before[k].source_claim_id);
        assert_eq!(edges[k].target_claim_id, before[k].target_claim_id);
        assert_eq!(edges[k].edge_type, before[k].edge_type);
        assert_eq!(edges[k].weight, before[k].weight);
        assert_eq!(edges[k].resolution, before[k].resolution);
        assert_eq!(edges[k].created_at, before[k].created_at);
    }
    assert!(matches!(resolve_tension(&mut edges, 3, "resolved"), Err(ResolveError::IndexOutOfRange(3, 3))));
    assert!(matches!(
        resolve_tension(&mut edges, 0, "resolved"),
        Err(ResolveError::NotTension(0, EdgeType::Require))
    ));
    match resolve_tension(&mut edges, 2, "Unresolved") {
        Err(ResolveError::UnknownStatus(name)) => assert_eq!(name, "unresolved"),
        _ => panic!("expected an unknown status"),
    }
    assert_eq!(edges[2].resolution, None);
}

#[test]
fn the_table_holds_each_id_once_in_order() {
    let (claims, edges) = fixture();
    let table = compute_strata(&claims, &edges);
    assert_eq!(table.len(), 5);
    let ids: Vec<&str> = (0..table.len()).map(|p| table.id_at(p).as_str()).collect();
    assert_eq!(ids, vec!["A", "B", "C", "D", "E"]);
    for p in 0..table.len() {
        assert_eq!(Some(table.stratum_at(p)), table.get(table.id_at(p)));
    }
    let one = vec![make_claim("only")];
    let table = compute_strata(&one, &[]);
    assert_eq!(table.len(), 1);
    assert_eq!(table.id_at(0), "only");
    assert_eq!(table.stratum_at(0), ClaimStratum::Peripheral);
    // An id that stands twice among the claims has one entry, at its first place.
    let twice = vec![make_claim("x"), make_claim("y"), make_claim("x"), make_claim("z")];
    let table = compute_strata(&twice, &[]);
    assert_eq!(table.len(), 3);
    let ids: Vec<&str> = (0..table.len()).map(|p| table.id_at(p).as_str()).collect();
    assert_eq!(ids, vec!["x", "y", "z"]);
    assert_eq!(compute_strata(&[], &edges).len(), 0);
}

#[test]
fn counts_add_up_and_ratios_stay_within_one_whole() {
    let claims = vec![make_claim("A"), make_claim("B"), make_claim("C")];
    let mut edges = vec![
        make_edge("A", "B", EdgeType::Require, 1.0),
        make_edge("C", "B", EdgeType::Support, 1.0),
        make_tension("A", "C", 1.0, Some(ResolutionStatus::Resolved)),
        make_tension("C", "A", 1.0, None),
        make_edge("A", "Z", EdgeType::Require, 1.0),
    ];
    // The same edges many times over lift the density, and nothing else,
    // above one whole.
    for _ in 0..4 {
        edges.extend(edges.clone());
    }
    let metrics = compute_metrics(&claims, &edges);
    assert_eq!(metrics.claim_count, 3);
    assert!(metrics.edge_count <= edges.len());
    assert_eq!(metrics.edge_count, 64);
    assert!(metrics.tension_count <= metrics.edge_count);
    assert_eq!(
        metrics.resolved_count + metrics.accepted_count + metrics.unresolved_count,
        metrics.tension_count
    );
    assert_eq!((metrics.tension_count, metrics.resolved_count, metrics.unresolved_count), (32, 16, 16));
    for ratio in [metrics.orphan_ratio, metrics.core_reachability, metrics.trr, metrics.lbr] {
        assert!(ratio <= 1_000_000);
    }
    assert!(metrics.sdd > 1_000_000);
}
