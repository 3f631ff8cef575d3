use dialectic::session::document::{
    frame_text, generate_claude_md, get_skill_description, get_skill_instruction, RelatedHit,
    RelatedSessionResults, SessionArtifacts, DOCUMENT_FOOTER,
};
use dialectic::session::{
    Claim, ContextFile, Session, SessionMode, SessionStatus, Tension, TerminalState, Thesis,
};

fn bare_session() -> Session {
    Session {
        id: "01ABC".to_string(),
        title: "Pricing".to_string(),
        status: SessionStatus::Formed,
        mode: SessionMode::Idea,
        working_dir: "/w".to_string(),
        is_project_local: false,
        created: 0,
        updated: 0,
        last_resumed: None,
        conversation_id: None,
        parent_session_id: None,
        context_files: vec![],
        claims: vec![],
        tensions: vec![],
        thesis: None,
        passes: vec![],
        terminal: TerminalState::default(),
        context_budget: None,
        paper_trail: None,
        reference_docs: vec![],
        cdg_edges: vec![],
        cdg_snapshots: vec![],
        category: None,
        summary: None,
    }
}

fn no_artifacts() -> SessionArtifacts {
    SessionArtifacts { memo: None, spine: None, thesis_history: None, state: None, scratchpad: None }
}

fn claim(id: usize, marker: Option<&str>) -> Claim {
    Claim {
        id: format!("c{}", id),
        content: format!("claim {}", id),
        source_id: "s".to_string(),
        marker: marker.map(|m| m.to_string()),
        created_at: 0,
    }
}

fn tension(description: &str, resolution: Option<&str>) -> Tension {
    Tension {
        id: "t".to_string(),
        claim_a_id: "a".to_string(),
        claim_b_id: "b".to_string(),
        description: description.to_string(),
        resolution: resolution.map(|r| r.to_string()),
        created_at: 0,
    }
}

fn hit(n: usize) -> RelatedHit {
    RelatedHit {
        session_id: format!("sess{}", n),
        collection: "memory_semantic".to_string(),
        snippet: format!("snippet {}", n),
    }
}

#[test]
fn skills_are_described_by_status() {
    assert_eq!(
        get_skill_description(SessionStatus::Backlog),
        "Spark \u{2014} brainstorm, gather sources, initial framing"
    );
    assert_eq!(
        get_skill_description(SessionStatus::Exploring),
        "Shape \u{2014} form positions on claims through probing"
    );
    assert_eq!(
        get_skill_description(SessionStatus::Tensions),
        "Stress-Test \u{2014} challenge assumptions, surface contradictions"
    );
    assert_eq!(
        get_skill_description(SessionStatus::Synthesizing),
        "Sharpen \u{2014} crystallize thesis with calibrated confidence"
    );
    assert_eq!(get_skill_description(SessionStatus::Formed), "Ship \u{2014} session is complete");
}

#[test]
fn every_status_but_formed_has_a_workflow() {
    let spark = get_skill_instruction(SessionStatus::Backlog).unwrap();
    assert!(spark.starts_with("You are in SPARK mode. Your job is to:\n- Help the user brainstorm"));
    assert!(spark.ends_with("suggest moving to Shape (exploring)"));
    assert_eq!(spark.lines().count(), 6);
    let shape = get_skill_instruction(SessionStatus::Exploring).unwrap();
    assert!(shape.starts_with("You are in SHAPE mode."));
    assert!(shape.ends_with("suggest moving to Stress-Test (tensions)"));
    let stress = get_skill_instruction(SessionStatus::Tensions).unwrap();
    assert!(stress.starts_with("You are in STRESS-TEST mode."));
    assert!(stress.contains("- Don't paper over contradictions \u{2014} preserve them as signal\n"));
    let sharpen = get_skill_instruction(SessionStatus::Synthesizing).unwrap();
    assert!(sharpen.starts_with("You are in SHARPEN mode."));
    assert!(sharpen.ends_with("suggest moving to Ship (formed)"));
    assert_eq!(get_skill_instruction(SessionStatus::Formed), None);
}

#[test]
fn a_bare_session_gives_head_and_footer() {
    let md = generate_claude_md(&bare_session(), "/data/sess_01ABC", &no_artifacts(), None);
    assert_eq!(
        md,
        "# Dialectic Session Context\n\n\
         **Session:** Pricing\n\
         **ID:** 01ABC\n\
         **Status:** formed (Ship \u{2014} session is complete)\n\
         **Mode:** idea\n\
         **Session dir:** /data/sess_01ABC\n\
         **Session data:** /data/sess_01ABC/session.json\n\n\
         ---\n\
         *This file is auto-generated by Dialectic. Do not edit manually.*\n"
    );
    assert!(md.ends_with(DOCUMENT_FOOTER));
    let empty = RelatedSessionResults { hits: vec![] };
    assert_eq!(generate_claude_md(&bare_session(), "/data/sess_01ABC", &no_artifacts(), Some(&empty)), md);
}

#[test]
fn a_full_session_gives_every_part_in_order() {
    let mut session = bare_session();
    session.status = SessionStatus::Synthesizing;
    session.mode = SessionMode::Decision;
    session.context_files = vec![
        ContextFile { id: "f1".to_string(), filename: "a.md".to_string(), path: "/p/a.md".to_string(), added_at: 0 },
        ContextFile { id: "f2".to_string(), filename: "b.txt".to_string(), path: "/p/b.txt".to_string(), added_at: 0 },
    ];
    session.claims = vec![claim(1, Some("[INSIGHT]")), claim(2, None)];
    session.tensions = vec![tension("first", None), tension("settled", Some("done")), tension("third", None)];
    session.thesis = Some(Thesis { content: "Margins hold.".to_string(), confidence: 725_000, updated_at: 0 });
    session.summary = Some("A summary.".to_string());
    session.parent_session_id = Some("PARENT".to_string());
    let artifacts = SessionArtifacts {
        memo: None,
        spine: None,
        thesis_history: None,
        state: Some("{}".to_string()),
        scratchpad: Some("notes".to_string()),
    };
    let related = RelatedSessionResults { hits: vec![hit(1), hit(2)] };
    let md = generate_claude_md(&session, "/d", &artifacts, Some(&related));
    let instruction = get_skill_instruction(SessionStatus::Synthesizing).unwrap();
    let expected = format!(
        "# Dialectic Session Context\n\n\
         **Session:** Pricing\n\
         **ID:** 01ABC\n\
         **Status:** synthesizing (Sharpen \u{2014} crystallize thesis with calibrated confidence)\n\
         **Mode:** decision\n\
         **Session dir:** /d\n\
         **Session data:** /d/session.json\n\n\
         ## Active Workflow\n\n{}\n\n\
         ## Context Files\n\n\
         - `a.md` (/p/a.md)\n\
         - `b.txt` (/p/b.txt)\n\n\
         ## Claims (2 total)\n\n\
         - [INSIGHT] claim 1\n\
         -  claim 2\n\n\
         ## Open Tensions (2 unresolved)\n\n\
         - first\n\
         - third\n\n\
         ## Current Thesis (confidence: 72%)\n\n\
         Margins hold.\n\n\
         ## Summary\n\nA summary.\n\n\
         ## Lineage\n\n\
         This session was forked from parent session `PARENT`.\n\
         Claims, tensions, and thesis were carried forward. The conversation is fresh.\n\n\
         ## Previous Iteration State\n\n```json\n{{}}\n```\n\n\
         ## Working Notes (Scratchpad)\n\nnotes\n\n\
         ## Related Prior Work\n\n\
         The following sessions contain related material:\n\n\
         - **sess1** (memory_semantic): snippet 1\n\
         - **sess2** (memory_semantic): snippet 2\n\n\
         ---\n\
         *This file is auto-generated by Dialectic. Do not edit manually.*\n",
        instruction
    );
    assert_eq!(md, expected);
}

#[test]
fn only_ten_claims_and_five_hits_are_listed() {
    let mut session = bare_session();
    session.claims = (1..=13).map(|n| claim(n, None)).collect();
    let related = RelatedSessionResults { hits: (1..=7).map(hit).collect() };
    let md = generate_claude_md(&session, "/d", &no_artifacts(), Some(&related));
    assert!(md.contains("## Claims (13 total)\n\n-  claim 1\n"));
    assert!(md.contains("-  claim 10\n- ... and 3 more\n\n"));
    assert!(!md.contains("claim 11"));
    assert!(md.contains("- **sess5** (memory_semantic): snippet 5\n\n---\n"));
    assert!(!md.contains("sess6"));

    session.claims = (1..=10).map(|n| claim(n, None)).collect();
    let md = generate_claude_md(&session, "/d", &no_artifacts(), None);
    assert!(md.contains("## Claims (10 total)\n\n"));
    assert!(md.contains("-  claim 10\n\n---\n"));
    assert!(!md.contains("more"));
}

#[test]
fn resolved_tensions_are_left_out() {
    let mut session = bare_session();
    session.tensions = vec![tension("a", Some("r")), tension("b", Some(""))];
    let md = generate_claude_md(&session, "/d", &no_artifacts(), None);
    assert!(!md.contains("Open Tensions"));
    session.tensions.push(tension("c", None));
    let md = generate_claude_md(&session, "/d", &no_artifacts(), None);
    assert!(md.contains("## Open Tensions (1 unresolved)\n\n- c\n\n---\n"));
}

#[test]
fn the_confidence_is_rounded_to_whole_hundredths() {
    let mut session = bare_session();
    for (confidence, shown) in
        [(0, "0%"), (4_999, "0%"), (5_000, "0%"), (15_000, "2%"), (725_000, "72%"), (735_000, "74%"), (1_000_000, "100%")]
    {
        session.thesis = Some(Thesis { content: "t".to_string(), confidence, updated_at: 0 });
        let md = generate_claude_md(&session, "/d", &no_artifacts(), None);
        assert!(
            md.contains(&format!("## Current Thesis (confidence: {})\n\nt\n\n", shown)),
            "{} in {}",
            confidence,
            md
        );
    }
}

#[test]
fn what_a_run_distilled_comes_before_state_and_scratchpad() {
    let session = bare_session();
    let artifacts = SessionArtifacts {
        memo: Some("Memo".to_string()),
        spine: Some("spine: 1".to_string()),
        thesis_history: Some("History".to_string()),
        state: Some("{}".to_string()),
        scratchpad: Some("notes".to_string()),
    };
    let md = generate_claude_md(&session, "/d", &artifacts, None);
    assert!(md.contains(
        "## Prior Conviction Memo\n\nMemo\n\n\
         ## Reasoning Spine\n\n```yaml\nspine: 1\n```\n\n\
         ## Thesis Evolution\n\nHistory\n\n---\n"
    ));
    assert!(!md.contains("Previous Iteration State"));
    assert!(!md.contains("Scratchpad"));

    let only_spine = SessionArtifacts { memo: None, thesis_history: None, ..artifacts.clone() };
    let md = generate_claude_md(&session, "/d", &only_spine, None);
    assert!(md.contains("/session.json\n\n## Reasoning Spine\n\n```yaml\nspine: 1\n```\n\n---\n"));
    assert!(!md.contains("Scratchpad"));

    let only_scratchpad = SessionArtifacts { scratchpad: Some("n".to_string()), ..no_artifacts() };
    let md = generate_claude_md(&session, "/d", &only_scratchpad, None);
    assert!(md.contains("/session.json\n\n## Working Notes (Scratchpad)\n\nn\n\n---\n"));
}

#[test]
fn long_artifacts_are_cut_and_marked() {
    assert_eq!(frame_text("<", "abcdef", 3, "...", ">"), "<abc...>");
    assert_eq!(frame_text("<", "abc", 3, "...", ">"), "<abc>");
    assert_eq!(frame_text("<", "", 0, "...", ">"), "<>");
    assert_eq!(frame_text("<", "éèà", 2, "!", ">"), "<éè!>");

    let session = bare_session();
    let artifacts = SessionArtifacts {
        memo: Some("m".repeat(4_001)),
        spine: Some("s".repeat(2_001)),
        thesis_history: Some("h".repeat(2_000)),
        state: None,
        scratchpad: None,
    };
    let md = generate_claude_md(&session, "/d", &artifacts, None);
    assert!(md.contains(&format!("## Prior Conviction Memo\n\n{}\n\n[TRUNCATED]\n\n", "m".repeat(4_000))));
    assert!(md.contains(&format!("```yaml\n{}\n# [TRUNCATED]\n```\n\n", "s".repeat(2_000))));
    assert!(md.contains(&format!("## Thesis Evolution\n\n{}\n\n---\n", "h".repeat(2_000))));

    let artifacts = SessionArtifacts {
        state: Some("j".repeat(2_001)),
        scratchpad: Some("n".repeat(3_001)),
        ..no_artifacts()
    };
    let md = generate_claude_md(&session, "/d", &artifacts, None);
    assert!(md.contains(&format!("```json\n{}\n// [TRUNCATED]\n```\n\n", "j".repeat(2_000))));
    assert!(md.contains(&format!(
        "## Working Notes (Scratchpad)\n\n{}\n\n[TRUNCATED]\n\n---\n",
        "n".repeat(3_000)
    )));
}
