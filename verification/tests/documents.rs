use dialectic::documents::chunker::{determine_handling, ChunkerError, DocumentHandling};

#[test]
fn test_determine_handling() {
    assert_eq!(determine_handling(1000), DocumentHandling::Full);
    assert_eq!(determine_handling(5000), DocumentHandling::Summarized);
    assert_eq!(determine_handling(30000), DocumentHandling::Chunked);
}

#[test]
fn handling_changes_at_the_thresholds() {
    assert_eq!(determine_handling(0), DocumentHandling::Full);
    assert_eq!(determine_handling(4_000), DocumentHandling::Full);
    assert_eq!(determine_handling(4_001), DocumentHandling::Summarized);
    assert_eq!(determine_handling(20_000), DocumentHandling::Summarized);
    assert_eq!(determine_handling(20_001), DocumentHandling::Chunked);
    assert_eq!(determine_handling(u32::MAX), DocumentHandling::Chunked);
}

#[test]
fn chunker_errors_have_texts() {
    assert_eq!(ChunkerError::Io("gone".to_string()).message(), "IO error: gone");
    assert_eq!(
        ChunkerError::UnsupportedType("bin".to_string()).message(),
        "Unsupported file type: bin"
    );
    assert_eq!(ChunkerError::ParseError("bad".to_string()).message(), "Parse error: bad");
    assert_eq!(
        ChunkerError::FileTooLarge(52_428_801, 52_428_800).message(),
        "File too large: 52428801 bytes (max 52428800 bytes)"
    );
    assert_eq!(ChunkerError::FileTooLarge(0, 9).message(), "File too large: 0 bytes (max 9 bytes)");
}

use dialectic::documents::chunker::chunk_plain_text;

#[test]
fn test_chunk_plain_text() {
    let content = "First paragraph.\n\nSecond paragraph.\n\nThird paragraph.";
    let (chunks, _) = chunk_plain_text(content);

    // With small content, should be one chunk
    assert_eq!(chunks.len(), 1);
}

#[test]
fn test_chunk_plain_text_positions() {
    let content = "First paragraph.\n\nSecond paragraph.\n\nThird paragraph.";
    let (chunks, _) = chunk_plain_text(content);

    assert_eq!(chunks.len(), 1);
    let chunk = &chunks[0];
    assert_eq!(chunk.start_pos, 0);
    assert_eq!(chunk.end_pos, content.len());
    // The content of each chunk is the text between its positions.
    assert_eq!(&content[chunk.start_pos..chunk.end_pos], &chunk.content);
}

#[test]
fn plain_text_is_cut_before_the_paragraph_that_is_too_much() {
    let first = "a".repeat(1200);
    let second = "b".repeat(700);
    let third = "c".repeat(100);
    // 1200 + 2 + 700 = 1902 bytes are 476 tokens; with 2 + 100 more, 501.
    let content = format!("{}\n\n{}\n\n{}", first, second, third);
    let (chunks, sections) = chunk_plain_text(&content);
    assert!(sections.is_empty());
    assert_eq!(chunks.len(), 2);
    assert_eq!(chunks[0].index, 0);
    assert_eq!(chunks[0].content, format!("{}\n\n{}", first, second));
    assert_eq!(chunks[0].start_pos, 0);
    assert_eq!(chunks[0].end_pos, 1904);
    assert_eq!(chunks[0].token_count, 476);
    assert_eq!(chunks[0].section, None);
    assert_eq!(chunks[1].index, 1);
    assert_eq!(chunks[1].content, third);
    assert_eq!(chunks[1].start_pos, 1904);
    assert_eq!(chunks[1].end_pos, content.len());
    assert_eq!(chunks[1].token_count, 25);

    // One paragraph alone is never cut, however long.
    let (chunks, _) = chunk_plain_text(&"x".repeat(5000));
    assert_eq!(chunks.len(), 1);
    assert_eq!(chunks[0].token_count, 1250);
}

#[test]
fn plain_text_edge_cases() {
    assert!(chunk_plain_text("").0.is_empty());
    assert!(chunk_plain_text(" \n\n\t\n\n ").0.is_empty());
    // Empty paragraphs at the start go, the reported start stays.
    let (chunks, _) = chunk_plain_text("\n\nabc");
    assert_eq!(chunks.len(), 1);
    assert_eq!(chunks[0].content, "abc");
    assert_eq!(chunks[0].start_pos, 0);
    assert_eq!(chunks[0].end_pos, 5);
    // Three line feeds: the third starts the next paragraph.
    let (chunks, _) = chunk_plain_text("a\n\n\nb\u{e9}");
    assert_eq!(chunks[0].content, "a\n\n\nb\u{e9}");
    assert_eq!(chunks[0].token_count, 2);
}

use dialectic::documents::chunker::{
    chunk_code, chunk_document_content, chunk_markdown, content_kind, find_paragraph_boundary,
    ContentKind,
};

#[test]
fn test_chunk_markdown_headers() {
    let content = "# Header 1\n\nContent under 1.\n\n## Header 2\n\nContent under 2.";
    let (chunks, sections) = chunk_markdown(content);

    assert!(!chunks.is_empty());
    assert_eq!(sections.len(), 2);
    assert_eq!(sections[0].heading, "Header 1");
    assert_eq!(sections[0].level, 1);
    assert_eq!(sections[1].heading, "Header 2");
    assert_eq!(sections[1].level, 2);
}

#[test]
fn test_chunk_markdown_no_trailing_newline() {
    let content = "# Title\n\nSome text";
    let (chunks, _) = chunk_markdown(content);

    assert!(!chunks.is_empty());
    let last = chunks.last().unwrap();
    // end_pos must not exceed content length
    assert!(last.end_pos <= content.len());
}

#[test]
fn markdown_chunks_follow_the_headings() {
    let content = "intro\n# Header 1\n\nContent under 1.\n\n## Header 2  \n\nContent under 2.";
    let (chunks, sections) = chunk_markdown(content);
    assert_eq!(chunks.len(), 3);

    assert_eq!(chunks[0].index, 0);
    assert_eq!(chunks[0].content, "intro\n");
    assert_eq!((chunks[0].start_pos, chunks[0].end_pos), (0, 6));
    assert_eq!(chunks[0].token_count, 2);
    assert_eq!(chunks[0].section, None);

    assert_eq!(chunks[1].index, 1);
    assert_eq!(chunks[1].content, "# Header 1\n\nContent under 1.\n\n");
    assert_eq!((chunks[1].start_pos, chunks[1].end_pos), (6, 36));
    assert_eq!(chunks[1].token_count, 8);
    assert_eq!(chunks[1].section.as_deref(), Some("Header 1"));

    // The last line has no line feed in the document; the chunk gets one.
    assert_eq!(chunks[2].index, 2);
    assert_eq!(chunks[2].content, "## Header 2  \n\nContent under 2.\n");
    assert_eq!((chunks[2].start_pos, chunks[2].end_pos), (36, content.len()));
    assert_eq!(chunks[2].token_count, 8);
    assert_eq!(chunks[2].section.as_deref(), Some("Header 2"));

    assert_eq!(sections.len(), 2);
    assert_eq!(sections[0].start_chunk, 1);
    assert_eq!(sections[0].token_count, 8);
    assert_eq!(sections[1].start_chunk, 2);
    assert_eq!(sections[1].token_count, 8);
}

#[test]
fn markdown_headings_are_trimmed_and_counted() {
    let (chunks, sections) = chunk_markdown("###\t Deep \u{3000}\n#\n####### seven\n#no space");
    assert_eq!(sections.len(), 4);
    assert_eq!((sections[0].heading.as_str(), sections[0].level), ("Deep", 3));
    assert_eq!((sections[1].heading.as_str(), sections[1].level), ("", 1));
    assert_eq!((sections[2].heading.as_str(), sections[2].level), ("seven", 7));
    assert_eq!((sections[3].heading.as_str(), sections[3].level), ("no space", 1));
    assert_eq!(chunks.len(), 4);
    assert_eq!(chunks[1].content, "#\n");
    assert_eq!(chunks[1].section.as_deref(), Some(""));
    assert_eq!(sections[1].start_chunk, 1);
    assert_eq!(sections[1].token_count, 1);

    // Two sections with one heading: the first takes the chunks of both.
    let (chunks, sections) = chunk_markdown("# A\nx\n# A\ny\n# B\nz\n");
    assert_eq!(chunks.len(), 3);
    assert_eq!(sections[0].token_count, 4);
    assert_eq!(sections[1].token_count, 2);
    assert_eq!(sections[2].token_count, 2);

    // 300 hash signs: the level keeps the low eight bits.
    let (_, sections) = chunk_markdown(&"#".repeat(300));
    assert_eq!(sections[0].level, 44);
    assert_eq!(sections[0].heading, "");
}

#[test]
fn markdown_chunks_are_split_at_a_paragraph_break() {
    assert!(chunk_markdown("").0.is_empty());
    assert!(chunk_markdown("\n \n\t\n").0.is_empty());

    // 40 lines of 49 bytes and a line feed: 2000 bytes reach the target with line 40.
    let line = "x".repeat(49);
    let mut content = String::new();
    for i in 0..60 {
        content.push_str(&line);
        content.push('\n');
        if i == 9 || i == 29 {
            content.push('\n');
        }
    }
    let (chunks, sections) = chunk_markdown(&content);
    assert!(sections.is_empty());
    // The break after line 10 lies in the first half; the one after line 30 is taken.
    assert_eq!(chunks.len(), 2);
    assert_eq!(chunks[0].content.len(), 30 * 50 + 2);
    assert!(chunks[0].content.ends_with("x\n\n"));
    assert_eq!((chunks[0].start_pos, chunks[0].end_pos), (0, 1502));
    assert_eq!(chunks[0].token_count, 376);
    assert_eq!(chunks[1].start_pos, 1502);
    assert_eq!(chunks[1].end_pos, content.len());
    assert_eq!(chunks[1].content.len(), 30 * 50);
    assert_eq!(chunks[1].token_count, 375);

    // Without a paragraph break nothing is split, however long the chunk.
    let solid = format!("{}\n", line).repeat(100);
    let (chunks, _) = chunk_markdown(&solid);
    assert_eq!(chunks.len(), 1);
    assert_eq!(chunks[0].token_count, 1250);
}

#[test]
fn markdown_lines_lose_their_carriage_return() {
    let content = "# T\r\na\r\nb\r";
    let (chunks, sections) = chunk_markdown(content);
    assert_eq!(sections[0].heading, "T");
    assert_eq!(chunks.len(), 1);
    // A carriage return that ends the document stays.
    assert_eq!(chunks[0].content, "# T\na\nb\r\n");
    assert_eq!(chunks[0].start_pos, 0);
    assert_eq!(chunks[0].end_pos, content.len());
    // The position that is reported for a heading counts no carriage returns.
    let (chunks, _) = chunk_markdown("a\r\n# h\r\nb");
    assert_eq!(chunks.len(), 2);
    assert_eq!((chunks[0].start_pos, chunks[0].end_pos), (0, 1));
    assert_eq!((chunks[1].start_pos, chunks[1].end_pos), (1, 9));
}

#[test]
fn code_is_cut_after_blank_lines_and_at_the_target() {
    assert!(chunk_code("").0.is_empty());
    assert!(chunk_code("\n  \n").0.is_empty());
    let (chunks, sections) = chunk_code("fn a() {}\n\n\nfn b() {}");
    assert!(sections.is_empty());
    // Too small to cut: one chunk, with a line feed after the last line.
    assert_eq!(chunks.len(), 1);
    assert_eq!(chunks[0].content, "fn a() {}\n\n\nfn b() {}\n");
    assert_eq!((chunks[0].start_pos, chunks[0].end_pos), (0, 21));
    assert_eq!(chunks[0].token_count, 6);

    // 20 lines of 50 bytes are 250 tokens: two blank lines then cut.
    let line = format!("{}\n", "y".repeat(49));
    let content = format!("{}\n\n{}", line.repeat(20), line.repeat(3));
    let (chunks, _) = chunk_code(&content);
    assert_eq!(chunks.len(), 2);
    assert_eq!(chunks[0].content.len(), 1002);
    assert_eq!((chunks[0].start_pos, chunks[0].end_pos), (0, 1002));
    assert_eq!(chunks[0].token_count, 251);
    assert_eq!(chunks[1].index, 1);
    assert_eq!((chunks[1].start_pos, chunks[1].end_pos), (1002, 1152));
    // One blank line does not cut.
    let content = format!("{}\n{}", line.repeat(20), line.repeat(3));
    assert_eq!(chunk_code(&content).0.len(), 1);
    // 19 lines fall short of half the target.
    let content = format!("{}\n\n{}", line.repeat(19), line.repeat(3));
    assert_eq!(chunk_code(&content).0.len(), 1);

    // 40 lines reach the target: the chunk is cut whatever follows.
    let (chunks, _) = chunk_code(&line.repeat(45));
    assert_eq!(chunks.len(), 2);
    assert_eq!(chunks[0].token_count, 500);
    assert_eq!((chunks[0].start_pos, chunks[0].end_pos), (0, 2000));
    assert_eq!((chunks[1].start_pos, chunks[1].end_pos), (2000, 2250));
    assert_eq!(chunks[1].token_count, 63);
}

#[test]
fn paragraph_boundaries_lie_in_the_second_half() {
    assert_eq!(find_paragraph_boundary(""), None);
    assert_eq!(find_paragraph_boundary("\n\n"), None);
    // A break that starts before the middle does not count.
    assert_eq!(find_paragraph_boundary("ab\n\ncd"), None);
    assert_eq!(find_paragraph_boundary("abc\n\ncd"), Some(5));
    assert_eq!(find_paragraph_boundary("\n\nabcdefgh"), None);
    assert_eq!(find_paragraph_boundary("abcd\n\n\n\nx"), Some(6));
    assert_eq!(find_paragraph_boundary("a\n\nb\n\nc\n\n"), Some(6));
    assert_eq!(find_paragraph_boundary("\u{e9}\u{e9}\n\n\u{e9}"), Some(6));
}

#[test]
fn documents_are_chunked_by_size_and_kind() {
    assert_eq!(content_kind("md"), ContentKind::Markdown);
    assert_eq!(content_kind("markdown"), ContentKind::Markdown);
    for extension in ["py", "rs", "ts", "js", "tsx", "jsx"] {
        assert_eq!(content_kind(extension), ContentKind::Code);
    }
    assert_eq!(content_kind("txt"), ContentKind::PlainText);
    assert_eq!(content_kind(""), ContentKind::PlainText);
    assert_eq!(content_kind("MD"), ContentKind::PlainText);

    let small = chunk_document_content("d1", "a.md", "/x/a.md", "md", "# T\n\ntext").unwrap();
    assert_eq!(small.id, "d1");
    assert_eq!(small.filename, "a.md");
    assert_eq!(small.path, "/x/a.md");
    assert_eq!(small.total_tokens, 3);
    assert_eq!(small.handling, DocumentHandling::Full);
    assert_eq!(small.chunks.len(), 1);
    assert_eq!(small.chunks[0].content, "# T\n\ntext");
    assert_eq!((small.chunks[0].start_pos, small.chunks[0].end_pos), (0, 9));
    assert_eq!(small.chunks[0].token_count, 3);
    assert!(small.sections.is_empty());
    assert!(small.summary.is_none());

    // 16,001 bytes are 4,001 tokens: summarised, and cut by kind.
    let body = format!("# Big\n\n{}", "word \n".repeat(2_666));
    assert_eq!(body.len(), 16_003);
    let big = chunk_document_content("d2", "b.md", "b.md", "md", &body).unwrap();
    assert_eq!(big.total_tokens, 4_001);
    assert_eq!(big.handling, DocumentHandling::Summarized);
    assert_eq!(big.sections.len(), 1);
    assert_eq!(big.sections[0].heading, "Big");
    assert_eq!(big.chunks.len(), 1);
    let as_text = chunk_document_content("d2", "b.txt", "b.txt", "txt", &body).unwrap();
    assert!(as_text.sections.is_empty());
    // The heading is a paragraph of its own; the rest does not fit with it.
    assert_eq!(as_text.chunks.len(), 2);
    assert_eq!(as_text.chunks[0].content, "# Big");
    assert_eq!(as_text.chunks[1].start_pos, 7);
    let as_code = chunk_document_content("d2", "b.rs", "b.rs", "rs", &body).unwrap();
    assert_eq!(as_code.chunks.len(), 9);

    let huge = "a".repeat(50 * 1024 * 1024 + 1);
    match chunk_document_content("d3", "c.txt", "c.txt", "txt", &huge) {
        Err(ChunkerError::FileTooLarge(size, max)) => {
            assert_eq!(size, 52_428_801);
            assert_eq!(max, 52_428_800);
        }
        _ => panic!("expected the file to be refused"),
    }
}

use dialectic::documents::chunker::{Chunk, ChunkedDocument, DocumentPersistence};
use dialectic::documents::embeddings::EmbeddingError;
use dialectic::documents::retriever::{
    add_document, clear_ephemeral, clear_session, ensure_initialized, get_chunk, list_references,
    remove_document, DocumentStore, RetrieverError,
};
use dialectic::chroma::client::ChromaError;

#[test]
fn test_ensure_initialized() {
    let mut store: Option<DocumentStore> = None;
    ensure_initialized(&mut store);
    assert!(store.is_some());
}

fn document(id: &str, tokens: &[u32]) -> ChunkedDocument {
    ChunkedDocument {
        id: id.to_string(),
        filename: format!("{}.md", id),
        path: format!("/docs/{}.md", id),
        total_tokens: tokens.iter().sum(),
        handling: DocumentHandling::Chunked,
        chunks: tokens
            .iter()
            .enumerate()
            .map(|(i, t)| Chunk {
                index: i as u32,
                content: format!("chunk {} of {}", i, id),
                start_pos: i * 10,
                end_pos: i * 10 + 10,
                token_count: *t,
                section: if i == 0 { None } else { Some("S".to_string()) },
            })
            .collect(),
        summary: None,
        sections: vec![],
    }
}

#[test]
fn the_store_keeps_documents_by_session() {
    let mut store: Option<DocumentStore> = None;
    assert!(matches!(list_references(&store, "s1"), Err(RetrieverError::NotInitialized)));
    assert!(matches!(get_chunk(&store, "s1", "d1", 0), Err(RetrieverError::NotInitialized)));
    assert!(matches!(
        add_document(&mut store, "s1", document("d1", &[1]), DocumentPersistence::Cached),
        Err(RetrieverError::NotInitialized)
    ));
    assert!(matches!(remove_document(&mut store, "s1", "d1"), Err(RetrieverError::NotInitialized)));
    clear_ephemeral(&mut store, "s1");
    clear_session(&mut store, "s1");
    assert!(store.is_none());

    ensure_initialized(&mut store);
    assert!(list_references(&store, "s1").unwrap().is_empty());

    let reference =
        add_document(&mut store, "s1", document("d1", &[5, 7]), DocumentPersistence::Ephemeral).unwrap();
    assert_eq!(reference.id, "d1");
    assert_eq!(reference.filename, "d1.md");
    assert_eq!(reference.path, "/docs/d1.md");
    assert_eq!(reference.total_tokens, 12);
    assert_eq!(reference.loaded_tokens, 12);
    assert_eq!(reference.handling, DocumentHandling::Chunked);
    assert_eq!(reference.persistence, DocumentPersistence::Ephemeral);
    assert_eq!(reference.chunk_count, 2);
    add_document(&mut store, "s1", document("d2", &[u32::MAX, 9]), DocumentPersistence::Permanent)
        .unwrap();
    add_document(&mut store, "s2", document("d1", &[3]), DocumentPersistence::Cached).unwrap();
    // Setting the store up again changes nothing.
    ensure_initialized(&mut store);

    let listed = list_references(&store, "s1").unwrap();
    assert_eq!(listed.len(), 2);
    assert_eq!(listed[0].id, "d1");
    assert_eq!(listed[1].id, "d2");
    // The sum of the estimates stops at the greatest u32.
    assert_eq!(listed[1].loaded_tokens, u32::MAX);
    assert_eq!(list_references(&store, "s2").unwrap().len(), 1);

    let chunk = get_chunk(&store, "s1", "d1", 1).unwrap();
    assert_eq!(chunk.index, 1);
    assert_eq!(chunk.content, "chunk 1 of d1");
    assert_eq!((chunk.start_pos, chunk.end_pos), (10, 20));
    assert_eq!(chunk.token_count, 7);
    assert_eq!(chunk.section.as_deref(), Some("S"));
    match get_chunk(&store, "s1", "d1", 2) {
        Err(RetrieverError::NotFound(what)) => assert_eq!(what, "Chunk 2 not found"),
        _ => panic!("expected a missing chunk"),
    }
    match get_chunk(&store, "s1", "d9", 0) {
        Err(RetrieverError::NotFound(what)) => assert_eq!(what, "d9"),
        _ => panic!("expected a missing document"),
    }
    match get_chunk(&store, "s9", "d1", 0) {
        Err(RetrieverError::NotFound(what)) => assert_eq!(what, "s9"),
        _ => panic!("expected a missing session"),
    }

    // A document with an id that is there takes the place of the old one.
    add_document(&mut store, "s1", document("d1", &[100]), DocumentPersistence::Cached).unwrap();
    let listed = list_references(&store, "s1").unwrap();
    assert_eq!(listed.len(), 2);
    assert_eq!(listed[0].id, "d1");
    assert_eq!(listed[0].loaded_tokens, 100);
    assert_eq!(listed[0].persistence, DocumentPersistence::Cached);

    add_document(&mut store, "s1", document("d3", &[1]), DocumentPersistence::Ephemeral).unwrap();
    clear_ephemeral(&mut store, "s1");
    let listed = list_references(&store, "s1").unwrap();
    assert_eq!(listed.iter().map(|r| r.id.as_str()).collect::<Vec<_>>(), vec!["d1", "d2"]);
    clear_ephemeral(&mut store, "nobody");

    remove_document(&mut store, "s1", "d1").unwrap();
    remove_document(&mut store, "s1", "d1").unwrap();
    remove_document(&mut store, "s1", "d2").unwrap();
    remove_document(&mut store, "s7", "d2").unwrap();
    // The session stays, without documents.
    assert!(list_references(&store, "s1").unwrap().is_empty());
    match get_chunk(&store, "s1", "d1", 0) {
        Err(RetrieverError::NotFound(what)) => assert_eq!(what, "d1"),
        _ => panic!("expected a missing document"),
    }
    clear_session(&mut store, "s1");
    match get_chunk(&store, "s1", "d1", 0) {
        Err(RetrieverError::NotFound(what)) => assert_eq!(what, "s1"),
        _ => panic!("expected a missing session"),
    }
    assert_eq!(list_references(&store, "s2").unwrap().len(), 1);
    assert_eq!(store.unwrap().sessions.len(), 1);
}

#[test]
fn retriever_errors_have_texts() {
    assert_eq!(RetrieverError::NotFound("d".to_string()).message(), "Document not found: d");
    assert_eq!(
        RetrieverError::Chunker(ChunkerError::ParseError("p".to_string())).message(),
        "Chunker error: Parse error: p"
    );
    assert_eq!(RetrieverError::NotInitialized.message(), "Store not initialized");
    assert_eq!(RetrieverError::InvalidSessionId.message(), "Invalid session ID");
    assert_eq!(
        RetrieverError::EmbeddingFailed("e".to_string()).message(),
        "Embedding generation failed: e"
    );
    assert_eq!(RetrieverError::ChromaError("c".to_string()).message(), "Chroma error: c");
    assert_eq!(
        RetrieverError::from_chroma(&ChromaError::ServerUnavailable).message(),
        "Chroma error: Chroma server not available"
    );
    assert_eq!(EmbeddingError::NotInitialized.message(), "Embedding model not initialized");
    assert_eq!(
        EmbeddingError::GenerationFailed("g".to_string()).message(),
        "Embedding generation failed: g"
    );
}
