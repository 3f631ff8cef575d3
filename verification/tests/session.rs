use dialectic::context::budget::{ContextBudget, ContextSource};
use dialectic::context::classification::SessionClassification;
use dialectic::obsidian::query::{
    fit_content, note_content, note_path, parse_mention, path_candidates, MentionKind,
};
use dialectic::session::{
    suggested_action, validate_session_id, Claim, Session, SessionError, SessionMode,
    SessionStatus, Tension, TerminalState, Thesis,
};
use dialectic::session::{check_conversation_id, newest_after};
use dialectic::terminal::TerminalError;
use dialectic::watcher::{
    budget_alert, classify_file, is_ready_for_mining, needs_marker_extraction, status_name,
    WatchedFile, WatcherError,
};
use dialectic::context::budget::ThresholdStatus;

#[test]
fn test_mention_parsing() {
    let mention = "@notes/path/to/note";
    let parsed = parse_mention(mention);
    assert!(parsed.query.starts_with("notes/"));

    let tag_mention = "@#project";
    let parsed = parse_mention(tag_mention);
    assert!(parsed.query.starts_with('#'));
}

#[test]
fn mentions_are_tags_paths_or_titles() {
    let parsed = parse_mention("@notes/path/to/note");
    assert_eq!(parsed.query, "notes/path/to/note");
    assert_eq!(parsed.kind, MentionKind::Path);
    let parsed = parse_mention("@@#project/x");
    assert_eq!(parsed.query, "#project/x");
    assert_eq!(parsed.kind, MentionKind::Tag);
    let parsed = parse_mention("My Note");
    assert_eq!(parsed.query, "My Note");
    assert_eq!(parsed.kind, MentionKind::Title);
    let parsed = parse_mention("@a@b/c");
    assert_eq!(parsed.query, "a@b/c");
    assert_eq!(parsed.kind, MentionKind::Path);
    let parsed = parse_mention("@@@");
    assert_eq!(parsed.query, "");
    assert_eq!(parsed.kind, MentionKind::Title);
    assert_eq!(parse_mention("").kind, MentionKind::Title);
    assert_eq!(parse_mention("@ #x").kind, MentionKind::Title);

    assert_eq!(note_path("a/b"), "a/b.md");
    assert_eq!(note_path("a/b.md"), "a/b.md");
    assert_eq!(note_path("md"), "md.md");
    assert_eq!(note_path(".md"), ".md");
    assert_eq!(note_path("x.MD"), "x.MD.md");
    assert_eq!(note_path(""), ".md");
    assert_eq!(
        path_candidates("notes/path/to/note"),
        ("notes/path/to/note.md".to_string(), "path/to/note.md".to_string())
    );
    assert_eq!(
        path_candidates("notes/notes/x.md"),
        ("notes/notes/x.md".to_string(), "x.md".to_string())
    );
    assert_eq!(path_candidates("a/notes/x"), ("a/notes/x.md".to_string(), "a/notes/x.md".to_string()));
    assert_eq!(path_candidates("notes/"), ("notes/.md".to_string(), ".md".to_string()));
}

#[test]
fn notes_are_cut_to_the_budget() {
    assert_eq!(fit_content("", 0), (String::new(), false));
    assert_eq!(fit_content("abcd", 1), ("abcd".to_string(), false));
    // Five bytes are two tokens: one more than the budget.
    assert_eq!(
        fit_content("abcde", 1),
        ("abcd...\n\n[TRUNCATED: 1 tokens remaining]".to_string(), true)
    );
    assert_eq!(
        fit_content("abcde", 0),
        ("...\n\n[TRUNCATED: 2 tokens remaining]".to_string(), true)
    );
    // The cut falls back to the start of a character.
    assert_eq!(
        fit_content("abc\u{e9}fgh", 1),
        ("abc...\n\n[TRUNCATED: 1 tokens remaining]".to_string(), true)
    );
    let note = note_content("a/b.md", "b", &"x".repeat(100), 10);
    assert_eq!(note.path, "a/b.md");
    assert_eq!(note.title, "b");
    assert!(note.truncated);
    assert_eq!(note.content, format!("{}...\n\n[TRUNCATED: 15 tokens remaining]", "x".repeat(40)));
    assert_eq!(note.token_count, 20);
    let whole = note_content("p", "t", "text", 10);
    assert!(!whole.truncated);
    assert_eq!(whole.content, "text");
    assert_eq!(whole.token_count, 1);
}

#[test]
fn session_ids_hold_safe_characters_only() {
    assert!(validate_session_id("abc-DEF_123").is_ok());
    assert!(validate_session_id("01HZX3J9K2").is_ok());
    assert!(validate_session_id("\u{e9}t\u{e9}\u{4e2d}").is_ok());
    for bad in ["", "a/b", "..", "a.b", "a b", "a\\b", "sess:1", "\u{0}", "a\n"] {
        assert!(
            matches!(validate_session_id(bad), Err(SessionError::InvalidSessionId)),
            "{:?} must be refused",
            bad
        );
    }
}

#[test]
fn errors_and_statuses_have_texts() {
    assert_eq!(SessionError::Io("x".to_string()).message(), "IO error: x");
    assert_eq!(SessionError::Json("j".to_string()).message(), "JSON error: j");
    assert_eq!(SessionError::NotFound("s".to_string()).message(), "Session not found: s");
    assert_eq!(SessionError::InvalidPath("p".to_string()).message(), "Invalid path: p");
    assert_eq!(SessionError::InvalidSessionId.message(), "Invalid session ID");
    assert_eq!(SessionError::PathEscape.message(), "Path escapes allowed directory");
    assert_eq!(SessionError::NoAppDataDir.message(), "App data directory not found");
    assert_eq!(TerminalError::Pty("p".to_string()).message(), "PTY error: p");
    assert_eq!(TerminalError::NotFound("t".to_string()).message(), "Terminal not found: t");
    assert_eq!(TerminalError::Io("i".to_string()).message(), "IO error: i");
    assert_eq!(
        TerminalError::AlreadyRunning("r".to_string()).message(),
        "Terminal already running: r"
    );
    assert_eq!(WatcherError::Notify("n".to_string()).message(), "Watcher error: n");
    assert_eq!(WatcherError::Io("i".to_string()).message(), "IO error: i");
    assert_eq!(WatcherError::Session("s".to_string()).message(), "Session error: s");
    assert_eq!(
        suggested_action(SessionStatus::Backlog),
        "Begin exploration with /dialectic to develop initial thesis"
    );
    assert_eq!(
        suggested_action(SessionStatus::Exploring),
        "Continue /dialectic exploration to find tensions"
    );
    assert_eq!(
        suggested_action(SessionStatus::Tensions),
        "Analyze tensions, run /dialectic with critique focus"
    );
    assert_eq!(
        suggested_action(SessionStatus::Synthesizing),
        "Synthesize findings into coherent thesis"
    );
    assert_eq!(suggested_action(SessionStatus::Formed), "Review and finalize thesis, consider export");
    assert_eq!(SessionStatus::default(), SessionStatus::Backlog);
    assert_eq!(SessionMode::default(), SessionMode::Idea);
    let terminal = TerminalState::default();
    assert!(terminal.pid.is_none() && !terminal.running && terminal.last_command.is_none());
}

fn empty_session() -> Session {
    Session {
        id: "s1".to_string(),
        title: "t".to_string(),
        status: SessionStatus::Exploring,
        mode: SessionMode::Idea,
        working_dir: "/w".to_string(),
        is_project_local: false,
        created: 0,
        updated: 0,
        last_resumed: None,
        conversation_id: None,
        parent_session_id: None,
        context_files: vec![],
        claims: vec![],
        tensions: vec![],
        thesis: None,
        passes: vec![],
        terminal: TerminalState::default(),
        context_budget: None,
        paper_trail: None,
        reference_docs: vec![],
        cdg_edges: vec![],
        cdg_snapshots: vec![],
        category: None,
        summary: None,
    }
}

#[test]
fn a_change_in_the_session_directory_is_told_apart() {
    assert_eq!(classify_file("session.json"), WatchedFile::Session);
    assert_eq!(classify_file("state.json"), WatchedFile::State);
    assert_eq!(classify_file("scratchpad.md"), WatchedFile::Scratchpad);
    assert_eq!(classify_file("session.json.tmp"), WatchedFile::Other);
    assert_eq!(classify_file("Session.json"), WatchedFile::Other);
    assert_eq!(classify_file(""), WatchedFile::Other);

    let mut session = empty_session();
    assert!(!needs_marker_extraction(&session));
    assert!(!is_ready_for_mining(&session));
    let claim = |marker: Option<&str>| Claim {
        id: "c".to_string(),
        content: "x".to_string(),
        source_id: "s".to_string(),
        marker: marker.map(|m| m.to_string()),
        created_at: 0,
    };
    session.claims = vec![claim(None), claim(None)];
    assert!(!needs_marker_extraction(&session));
    session.claims.push(claim(Some("[RISK]")));
    assert!(needs_marker_extraction(&session));
    session.claims.clear();
    let tension = |resolution: Option<&str>| Tension {
        id: "t".to_string(),
        claim_a_id: "a".to_string(),
        claim_b_id: "b".to_string(),
        description: "d".to_string(),
        resolution: resolution.map(|r| r.to_string()),
        created_at: 0,
    };
    session.tensions = vec![tension(Some("done"))];
    assert!(!needs_marker_extraction(&session));
    session.tensions.push(tension(None));
    assert!(needs_marker_extraction(&session));
    session.tensions.clear();
    session.thesis = Some(Thesis { content: "c".to_string(), confidence: 500_000, updated_at: 0 });
    assert!(needs_marker_extraction(&session));
    session.status = SessionStatus::Formed;
    assert!(is_ready_for_mining(&session));
}

#[test]
fn a_budget_over_a_threshold_raises_an_alert() {
    let mut budget = ContextBudget::at(SessionClassification::Fit, 0);
    assert!(budget_alert("s1", &budget).is_none());
    assert!(budget.add_tokens(ContextSource::PaperTrail, 28_800));
    assert!(budget.add_tokens(ContextSource::Obsidian, 14_400));
    // 43,200 of 50,400 are 85 hundredths.
    let alert = budget_alert("s1", &budget).unwrap();
    assert_eq!(alert.session_id, "s1");
    assert_eq!(alert.status, "warn_user");
    assert_eq!(alert.percentage, 85);
    assert_eq!(alert.used, 43_200);
    assert_eq!(alert.total, 50_400);
    assert_eq!(status_name(ThresholdStatus::Normal), "normal");
    assert_eq!(status_name(ThresholdStatus::AutoCompress), "auto_compress");
    assert_eq!(status_name(ThresholdStatus::ForceCompress), "force_compress");
}

#[test]
fn a_fork_carries_the_work_and_starts_anew() {
    let mut source = empty_session();
    source.title = "Pricing".to_string();
    source.status = SessionStatus::Synthesizing;
    source.mode = SessionMode::Decision;
    source.is_project_local = true;
    source.conversation_id = Some("conv-1".to_string());
    source.last_resumed = Some(5);
    source.claims = vec![Claim {
        id: "c1".to_string(),
        content: "Margins hold".to_string(),
        source_id: "src".to_string(),
        marker: Some("[INSIGHT]".to_string()),
        created_at: 3,
    }];
    source.tensions = vec![Tension {
        id: "t1".to_string(),
        claim_a_id: "c1".to_string(),
        claim_b_id: "c2".to_string(),
        description: "d".to_string(),
        resolution: None,
        created_at: 4,
    }];
    source.thesis = Some(Thesis { content: "th".to_string(), confidence: 700_000, updated_at: 6 });
    source.category = Some("work".to_string());
    source.summary = Some("sum".to_string());
    source.terminal.running = true;
    source.context_budget = Some(ContextBudget::at(SessionClassification::Quick, 1));

    let forked = dialectic::session::fork_of(source, "new".to_string(), None, 50);
    assert_eq!(forked.id, "new");
    assert_eq!(forked.title, "Pricing (fork)");
    assert_eq!(forked.status, SessionStatus::Backlog);
    assert_eq!(forked.mode, SessionMode::Decision);
    assert_eq!(forked.working_dir, "/w");
    assert!(forked.is_project_local);
    assert_eq!((forked.created, forked.updated), (50, 50));
    assert!(forked.last_resumed.is_none());
    assert!(forked.conversation_id.is_none());
    assert_eq!(forked.parent_session_id.as_deref(), Some("s1"));
    assert_eq!(forked.claims.len(), 1);
    assert_eq!(forked.claims[0].content, "Margins hold");
    assert_eq!(forked.tensions.len(), 1);
    assert_eq!(forked.thesis.as_ref().unwrap().confidence, 700_000);
    assert_eq!(forked.category.as_deref(), Some("work"));
    assert_eq!(forked.summary.as_deref(), Some("sum"));
    assert!(forked.passes.is_empty() && forked.cdg_snapshots.is_empty());
    assert!(!forked.terminal.running);
    let budget = forked.context_budget.unwrap();
    assert_eq!(budget.classification, SessionClassification::NetNew);
    assert_eq!(budget.last_audit, 50);
    assert_eq!(forked.paper_trail.unwrap().head.updated_at, 50);

    let named = dialectic::session::fork_of(empty_session(), "n2".to_string(), Some("Mine".to_string()), 1);
    assert_eq!(named.title, "Mine");
}

#[test]
fn the_launch_command_resumes_safe_conversations_only() {
    let mut session = empty_session();
    let plain = dialectic::session::launch_context(&session, "/data/sess_s1", "assistant");
    assert_eq!(plain.claude_command, vec!["assistant"]);
    assert_eq!(plain.working_dir, "/data/sess_s1");
    assert_eq!(plain.session_dir, "/data/sess_s1");
    assert!(plain.conversation_id.is_none());
    assert_eq!(
        plain.env_vars,
        vec![
            ("DIALECTIC_SESSION_ID".to_string(), "s1".to_string()),
            ("DIALECTIC_SESSION_DIR".to_string(), "/data/sess_s1".to_string()),
        ]
    );

    session.conversation_id = Some("abc-123_x".to_string());
    let resumed = dialectic::session::launch_context(&session, "/d", "assistant");
    assert_eq!(resumed.claude_command, vec!["assistant", "--resume", "abc-123_x"]);
    assert_eq!(resumed.conversation_id.as_deref(), Some("abc-123_x"));

    session.is_project_local = true;
    let local = dialectic::session::launch_context(&session, "/d", "assistant");
    assert_eq!(local.claude_command, vec!["assistant", "--resume", "abc-123_x", "--add-dir", "/d"]);
    assert_eq!(local.working_dir, "/w");

    for unsafe_id in ["", "a;rm -rf", "a b", "$(x)", "a/b"] {
        session.conversation_id = Some(unsafe_id.to_string());
        let context = dialectic::session::launch_context(&session, "/d", "assistant");
        assert_eq!(context.claude_command, vec!["assistant", "--add-dir", "/d"], "{:?}", unsafe_id);
        assert_eq!(context.conversation_id.as_deref(), Some(unsafe_id));
    }
}

#[test]
fn conversation_ids_hold_letters_digits_and_hyphens() {
    assert!(check_conversation_id("0b5e3c1a-9f2d-4c7e-8a11-2d3e4f5a6b7c"));
    assert!(check_conversation_id("abc"));
    assert!(check_conversation_id(""));
    assert!(!check_conversation_id("a_b"));
    assert!(!check_conversation_id("a b"));
    assert!(!check_conversation_id("../x"));
}

#[test]
fn the_newest_file_after_the_floor_is_found() {
    assert_eq!(newest_after(&[], 0), None);
    assert_eq!(newest_after(&[5, 9, 7], 4), Some(1));
    assert_eq!(newest_after(&[5, 9, 7], 9), None);
    assert_eq!(newest_after(&[5, 9, 7], 8), Some(1));
    assert_eq!(newest_after(&[10, 10, 3], 2), Some(0));
    assert_eq!(newest_after(&[3, 10, 10], 2), Some(1));
    // A time at or before the epoch never counts.
    assert_eq!(newest_after(&[0, -5], -10), None);
    assert_eq!(newest_after(&[-5, 1], -10), Some(1));
    assert_eq!(newest_after(&[i64::MAX, i64::MIN], i64::MIN), Some(0));
}
