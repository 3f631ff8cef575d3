use dialectic::chroma::client::ChromaError;
use dialectic::chroma::collections::{
    chunk_id, COLLECTION_DOCUMENTS, COLLECTION_MEMORY_EPISODIC, COLLECTION_MEMORY_PROCEDURAL,
    COLLECTION_MEMORY_SEMANTIC, COLLECTION_OBSIDIAN, COLLECTION_WEB_SOURCES,
};
use dialectic::chroma::jsonl_miner::{chunk_content, fnv1a_hash, hash_url, truncate_content};
use dialectic::chroma::memory::{
    marker_to_memory_type, read_marker_name, MemoryError, MemoryType,
};
use dialectic::chroma::sidecar::{idle_status, restart_backoff, SidecarError, CHROMA_PORT};

#[test]
fn chunk_ids_join_their_parts() {
    assert_eq!(chunk_id("documents", "doc1", 0), "documents_doc1_0");
    assert_eq!(chunk_id("obsidian", "a_b", 10), "obsidian_a_b_10");
    assert_eq!(chunk_id("", "", 4_294_967_295), "__4294967295");
    assert_eq!(chunk_id(COLLECTION_WEB_SOURCES, "\u{e9}", 907), "web_sources_\u{e9}_907");
    assert_eq!(COLLECTION_DOCUMENTS, "documents");
    assert_eq!(COLLECTION_OBSIDIAN, "obsidian");
}

#[test]
fn memory_types_have_names_and_collections() {
    assert_eq!(MemoryType::Semantic.as_str(), "semantic");
    assert_eq!(MemoryType::Procedural.as_str(), "procedural");
    assert_eq!(MemoryType::Episodic.as_str(), "episodic");
    assert_eq!(MemoryType::Semantic.collection_name(), COLLECTION_MEMORY_SEMANTIC);
    assert_eq!(MemoryType::Procedural.collection_name(), "memory_procedural");
    assert_eq!(MemoryType::Episodic.collection_name(), COLLECTION_MEMORY_EPISODIC);
    assert_eq!(COLLECTION_MEMORY_PROCEDURAL, "memory_procedural");
    for memory_type in [MemoryType::Semantic, MemoryType::Procedural, MemoryType::Episodic] {
        assert_eq!(MemoryType::from_str(memory_type.as_str()).unwrap(), memory_type);
    }
    match MemoryType::from_str("Semantic") {
        Err(MemoryError::InvalidType(name)) => assert_eq!(name, "Semantic"),
        _ => panic!("expected an invalid type"),
    }
    assert!(MemoryType::from_str("").is_err());
    assert!(MemoryType::from_str("semantic ").is_err());
}

#[test]
fn markers_stand_for_memory_types() {
    assert_eq!(marker_to_memory_type("[INSIGHT]"), Some(MemoryType::Semantic));
    assert_eq!(marker_to_memory_type("evidence"), Some(MemoryType::Semantic));
    assert_eq!(marker_to_memory_type("  [[Pattern]] \n"), Some(MemoryType::Semantic));
    assert_eq!(marker_to_memory_type("[assumption"), Some(MemoryType::Semantic));
    assert_eq!(marker_to_memory_type("[DECISION]"), Some(MemoryType::Procedural));
    assert_eq!(marker_to_memory_type("[RISK]"), Some(MemoryType::Procedural));
    assert_eq!(marker_to_memory_type("[COUNTER]"), Some(MemoryType::Episodic));
    assert_eq!(marker_to_memory_type("[TENSION]"), Some(MemoryType::Episodic));
    assert_eq!(marker_to_memory_type("thread]"), Some(MemoryType::Episodic));
    assert_eq!(marker_to_memory_type("[Question]"), Some(MemoryType::Episodic));
    assert_eq!(marker_to_memory_type("[OTHER]"), None);
    assert_eq!(marker_to_memory_type(""), None);
    assert_eq!(marker_to_memory_type("[]"), None);
    // White space inside the brackets stays.
    assert_eq!(marker_to_memory_type("[ RISK ]"), None);
    assert_eq!(marker_to_memory_type("[RI[SK]"), None);
    assert_eq!(read_marker_name(" [[a[b]c]] "), "a[b]c");
    assert_eq!(read_marker_name("[ x ]"), " x ");
    assert_eq!(read_marker_name("]["), "");
    assert_eq!(MemoryType::from_marker_name("RISK"), Some(MemoryType::Procedural));
    assert_eq!(MemoryType::from_marker_name("risk"), None);
}

#[test]
fn store_errors_have_texts() {
    assert_eq!(ChromaError::Http("500".to_string()).message(), "Chroma HTTP error: 500");
    assert_eq!(
        ChromaError::CollectionNotFound("c".to_string()).message(),
        "Collection not found: c"
    );
    assert_eq!(ChromaError::ServerUnavailable.message(), "Chroma server not available");
    assert_eq!(ChromaError::InvalidInput("i".to_string()).message(), "Invalid input: i");
    assert_eq!(ChromaError::Deserialize("d".to_string()).message(), "Deserialization error: d");
    assert_eq!(
        MemoryError::Chroma(ChromaError::ServerUnavailable).message(),
        "Chroma error: Chroma server not available"
    );
    assert_eq!(MemoryError::NotFound("m1".to_string()).message(), "Memory not found: m1");
    assert_eq!(MemoryError::InvalidType("t".to_string()).message(), "Invalid memory type: t");
    assert_eq!(SidecarError::NotFound("/x".to_string()).message(), "Sidecar not found at: /x");
    assert_eq!(SidecarError::StartFailed("s".to_string()).message(), "Sidecar failed to start: s");
    assert_eq!(SidecarError::NotRunning.message(), "Sidecar not running");
    assert_eq!(SidecarError::HealthCheckFailed("h".to_string()).message(), "Health check failed: h");
    assert_eq!(SidecarError::Io("io".to_string()).message(), "IO error: io");
    assert_eq!(SidecarError::MaxRestartsExceeded.message(), "Max restart attempts exceeded");
}

#[test]
fn restarts_back_off_and_give_up() {
    assert_eq!(restart_backoff(0).unwrap(), 1000);
    assert_eq!(restart_backoff(1).unwrap(), 2000);
    assert_eq!(restart_backoff(2).unwrap(), 4000);
    assert!(matches!(restart_backoff(3), Err(SidecarError::MaxRestartsExceeded)));
    assert!(matches!(restart_backoff(u32::MAX), Err(SidecarError::MaxRestartsExceeded)));
    let status = idle_status("/data".to_string());
    assert!(!status.running);
    assert_eq!(status.port, CHROMA_PORT);
    assert_eq!(status.port, 8000);
    assert_eq!(status.pid, None);
    assert_eq!(status.uptime_seconds, None);
    assert_eq!(status.restart_count, 0);
    assert_eq!(status.persist_directory, "/data");
}

#[test]
fn urls_hash_to_sixteen_hex_digits() {
    // The offset basis, and the known hashes of "a" and "foobar".
    assert_eq!(fnv1a_hash(""), 0xcbf29ce484222325);
    assert_eq!(fnv1a_hash("a"), 0xaf63dc4c8601ec8c);
    assert_eq!(fnv1a_hash("foobar"), 0x85944171f73967e8);
    assert_eq!(hash_url(""), "cbf29ce484222325");
    assert_eq!(hash_url("a"), "af63dc4c8601ec8c");
    assert_eq!(hash_url("foobar"), "85944171f73967e8");
    let digest = hash_url("https://example.com/\u{e9}");
    assert_eq!(digest.len(), 16);
    assert_eq!(digest, format!("{:016x}", fnv1a_hash("https://example.com/\u{e9}")));
    // A hash with leading zeros keeps them.
    assert_eq!(hash_url("\u{1}\u{0}"), format!("{:016x}", fnv1a_hash("\u{1}\u{0}")));
}

#[test]
fn sources_are_truncated_by_characters() {
    assert_eq!(truncate_content(""), "");
    let exact = "\u{e9}".repeat(40_000);
    assert_eq!(truncate_content(&exact), exact);
    let long = format!("{}tail", exact);
    assert_eq!(truncate_content(&long), exact);
}

#[test]
fn sources_are_chunked_at_breaks_and_limits() {
    assert_eq!(chunk_content(""), vec![(String::new(), 0)]);
    assert_eq!(chunk_content("short\ntext"), vec![("short\ntext".to_string(), 0)]);
    // 2000 characters of two bytes each are still one chunk.
    let wide = "\u{e9}".repeat(2000);
    assert_eq!(chunk_content(&wide), vec![(wide.clone(), 0)]);

    // Lines of 99 bytes and a line feed; a paragraph break after line 15.
    let line = format!("{}\n", "z".repeat(99));
    let content = format!("{}\n{}", line.repeat(15), line.repeat(10));
    let chunks = chunk_content(&content);
    // With line 20 the chunk has 2001 bytes; the break at byte 1500 lies in its second half.
    assert_eq!(chunks.len(), 2);
    assert_eq!(chunks[0], (format!("{}\n", line.repeat(15)), 0));
    assert_eq!(chunks[1], (line.repeat(10), 1));

    // No paragraph break: once 4000 bytes are reached, the chunk is split after
    // the first line feed from byte 2000 on, which ends line 21.
    let chunks = chunk_content(&line.repeat(45));
    assert_eq!(chunks.len(), 2);
    assert_eq!(chunks[0], (line.repeat(21), 0));
    assert_eq!(chunks[1], (line.repeat(24), 1));
    // The split counts characters: wide characters move it further on.
    let wide_line = format!("{}\n", "\u{e9}".repeat(49));
    let chunks = chunk_content(&wide_line.repeat(41));
    // 41 lines of 99 bytes are 4059 bytes; the first line feed from byte 2000
    // on is byte 2078, and the chunk has no more than 2050 characters.
    assert_eq!(chunks.len(), 1);
    let chunks = chunk_content(&wide_line.repeat(45));
    assert_eq!(chunks.len(), 2);
    assert_eq!(chunks[0].0, wide_line.repeat(41));
    assert_eq!(chunks[1], (wide_line.repeat(4), 1));
    // Characters of one and of two bytes: the split falls within a line.
    let mixed = format!("{}{}", wide_line.repeat(10), line.repeat(32));
    let chunks = chunk_content(&mixed);
    // 990 + 3200 = 4190 bytes with line 42; the first line feed from byte 2000
    // on is byte 2089, and 2090 characters are 490 bytes more than 2090 bytes.
    assert_eq!(chunks.len(), 2);
    assert_eq!(chunks[0].0.chars().count(), 2090);
    assert_eq!(chunks[0].0.len(), 2580);
    assert_eq!(chunks[1].0, format!("{}\n{}", "z".repeat(9), line.repeat(16)));

    // A last line without a line feed gets one; blank rests are dropped.
    let chunks = chunk_content(&format!("{}end", line.repeat(21)));
    assert_eq!(chunks, vec![(format!("{}end\n", line.repeat(21)), 0)]);
    let blank = format!("{}\n{}", line.repeat(21), " \n".repeat(4));
    let chunks = chunk_content(&blank);
    assert_eq!(chunks.len(), 1);
    assert_eq!(chunks[0].0, format!("{}\n", line.repeat(21)));
}

use dialectic::chroma::jsonl_miner::{collect_sources, ToolBlock};
use dialectic::chroma::memory::{
    plan_session_memories, remember_thesis, round_percent, MemorySource,
};
use dialectic::session::{Claim, Session, SessionMode, SessionStatus, Tension, TerminalState, Thesis};

fn tool_use(name: &str, id: &str, query: Option<&str>, url: Option<&str>, prompt: Option<&str>) -> ToolBlock {
    ToolBlock::Use {
        name: name.to_string(),
        id: id.to_string(),
        query: query.map(str::to_string),
        url: url.map(str::to_string),
        prompt: prompt.map(str::to_string),
    }
}

fn tool_result(id: &str, text: &str) -> ToolBlock {
    ToolBlock::Result { tool_use_id: id.to_string(), text: text.to_string() }
}

#[test]
fn web_calls_bring_sources() {
    let blocks = vec![
        tool_use("WebSearch", "u1", Some("verus loops"), None, None),
        tool_result("u1", "first answer"),
        tool_use("Read", "u2", None, None, None),
        tool_result("u2", "file content"),
        tool_use("WebFetch", "u3", None, Some("https://x.org"), Some("what is it")),
        tool_use("WebSearch", "u4", Some("nothing found"), None, None),
        tool_result("u4", ""),
        tool_use("WebFetch", "u5", None, None, None),
        // The result of u3 comes late, and twice: the last one counts.
        tool_result("u3", "early page"),
        tool_result("u3", "late page"),
        tool_use("WebSearch", "", Some("no id"), None, None),
        tool_result("", "for the empty id"),
    ];
    let mined = collect_sources(&blocks);
    assert_eq!(mined.tool_calls_found, 5);
    assert_eq!(mined.sources.len(), 3);
    let search = &mined.sources[0];
    assert_eq!(search.source_type, "web_search");
    assert_eq!(search.query.as_deref(), Some("verus loops"));
    assert_eq!((search.url.as_deref(), search.title.as_deref()), (None, None));
    assert_eq!(search.content, "first answer");
    let fetch = &mined.sources[1];
    assert_eq!(fetch.source_type, "web_fetch");
    assert_eq!(fetch.url.as_deref(), Some("https://x.org"));
    assert_eq!(fetch.title.as_deref(), Some("what is it"));
    assert_eq!(fetch.query, None);
    assert_eq!(fetch.content, "late page");
    assert_eq!(mined.sources[2].content, "for the empty id");

    let long = "x".repeat(40_001);
    let mined = collect_sources(&[tool_result("a", &long), tool_use("WebFetch", "a", None, None, None)]);
    assert_eq!(mined.sources[0].content.len(), 40_000);
    let mined = collect_sources(&[]);
    assert_eq!(mined.tool_calls_found, 0);
    assert!(mined.sources.is_empty());
}

fn session_with(claims: Vec<Claim>, tensions: Vec<Tension>, thesis: Option<Thesis>) -> Session {
    Session {
        id: "s1".to_string(),
        title: "My \"best\" session".to_string(),
        status: SessionStatus::Exploring,
        mode: SessionMode::Idea,
        working_dir: "/w".to_string(),
        is_project_local: false,
        created: 0,
        updated: 0,
        last_resumed: None,
        conversation_id: None,
        parent_session_id: None,
        context_files: vec![],
        claims,
        tensions,
        thesis,
        passes: vec![],
        terminal: TerminalState::default(),
        context_budget: None,
        paper_trail: None,
        reference_docs: vec![],
        cdg_edges: vec![],
        cdg_snapshots: vec![],
        category: None,
        summary: None,
    }
}

#[test]
fn sessions_give_memories() {
    let claim = |id: &str, marker: Option<&str>| Claim {
        id: id.to_string(),
        content: format!("content of {}", id),
        source_id: "src".to_string(),
        marker: marker.map(str::to_string),
        created_at: 0,
    };
    let tension = |id: &str, resolution: Option<&str>| Tension {
        id: id.to_string(),
        claim_a_id: "a".to_string(),
        claim_b_id: "b".to_string(),
        description: format!("clash {}", id),
        resolution: resolution.map(str::to_string),
        created_at: 0,
    };
    let session = session_with(
        vec![
            claim("c1", Some("[INSIGHT]")),
            claim("c2", None),
            claim("c3", Some("[UNKNOWN]")),
            claim("c4", Some(" risk ")),
        ],
        vec![tension("t1", Some("settled")), tension("t2", None)],
        Some(Thesis { content: "The thesis.".to_string(), confidence: 725_000, updated_at: 0 }),
    );
    let writes = plan_session_memories(&session);
    assert_eq!(writes.len(), 4);

    assert_eq!(writes[0].memory_type, MemoryType::Semantic);
    assert_eq!(writes[0].id, "s1::c1");
    assert_eq!(
        writes[0].document,
        "[INSIGHT] content of c1 -- from session \"My \"best\" session\""
    );
    assert_eq!(writes[0].session_id, "s1");
    assert_eq!(writes[0].session_title, "My \"best\" session");
    match &writes[0].source {
        MemorySource::Claim { claim_id, marker } => {
            assert_eq!(claim_id, "c1");
            assert_eq!(marker, "[INSIGHT]");
        }
        _ => panic!("expected a claim"),
    }
    assert_eq!(writes[1].memory_type, MemoryType::Procedural);
    assert_eq!(writes[1].id, "s1::c4");
    assert_eq!(writes[1].document, " risk  content of c4 -- from session \"My \"best\" session\"");

    assert_eq!(writes[2].memory_type, MemoryType::Episodic);
    assert_eq!(writes[2].id, "s1::tension::t2");
    assert_eq!(
        writes[2].document,
        "[TENSION] Unresolved: clash t2 -- from session \"My \"best\" session\""
    );
    match &writes[2].source {
        MemorySource::Tension { tension_id, claim_a_id, claim_b_id } => {
            assert_eq!((tension_id.as_str(), claim_a_id.as_str(), claim_b_id.as_str()), ("t2", "a", "b"));
        }
        _ => panic!("expected a tension"),
    }

    assert_eq!(writes[3].memory_type, MemoryType::Semantic);
    assert_eq!(writes[3].id, "s1::thesis");
    assert_eq!(
        writes[3].document,
        "Thesis (confidence: 72%): The thesis. -- from session \"My \"best\" session\""
    );
    assert!(matches!(writes[3].source, MemorySource::Thesis { confidence: 725_000 }));

    assert!(plan_session_memories(&session_with(vec![], vec![], None)).is_empty());
    let weak = Some(Thesis { content: "t".to_string(), confidence: 499_999, updated_at: 0 });
    assert!(remember_thesis("s", "t", &weak).is_none());
    let even = Some(Thesis { content: "t".to_string(), confidence: 500_000, updated_at: 0 });
    assert!(remember_thesis("s", "t", &even).unwrap().document.starts_with("Thesis (confidence: 50%)"));
}

#[test]
fn confidences_round_to_the_nearest_hundredth() {
    assert_eq!(round_percent(0), 0);
    assert_eq!(round_percent(4_999), 0);
    assert_eq!(round_percent(5_000), 0);
    assert_eq!(round_percent(5_001), 1);
    assert_eq!(round_percent(15_000), 2);
    assert_eq!(round_percent(25_000), 2);
    assert_eq!(round_percent(725_000), 72);
    assert_eq!(round_percent(735_000), 74);
    assert_eq!(round_percent(999_999), 100);
    assert_eq!(round_percent(1_000_000), 100);
    assert_eq!(round_percent(u32::MAX), 429_497);
}
