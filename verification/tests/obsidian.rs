use dialectic::obsidian::indexer::{
    extract_links, extract_summary, extract_tags, insert_sorted, ObsidianError,
};

#[test]
fn test_extract_summary() {
    let content = "# Title\n\nThis is the first paragraph.\n\nThis is the second.";
    assert_eq!(extract_summary(content), "This is the first paragraph.");
}

#[test]
fn test_extract_summary_with_frontmatter() {
    let content = "---\ntitle: Test\n---\n\nActual content here.";
    assert_eq!(extract_summary(content), "Actual content here.");
}

#[test]
fn test_extract_links() {
    let content = "Check out [[other note]] and [[folder/nested|nested note]].";
    let links = extract_links(content);
    assert_eq!(links, vec!["other note", "folder/nested"]);
}

#[test]
fn test_extract_tags() {
    let content = "This has #tag1 and #tag-2 and #tag_3.";
    let tags = extract_tags(content);
    assert!(tags.contains(&"#tag1".to_string()));
    assert!(tags.contains(&"#tag-2".to_string()));
    assert!(tags.contains(&"#tag_3".to_string()));
}

#[test]
fn summaries_skip_headings_and_blank_paragraphs() {
    assert_eq!(extract_summary(""), "");
    assert_eq!(extract_summary("   \n\n \t "), "");
    assert_eq!(extract_summary("# Only a heading"), "");
    // The two ends of the note are trimmed before the paragraphs are told apart.
    assert_eq!(extract_summary("\n\n  # Title\n\nBody"), "Body");
    assert_eq!(extract_summary("x\n\n  # Title\n\nBody"), "x");
    assert_eq!(extract_summary("#x\n\n  # Title\n\nBody"), "  # Title");
    assert_eq!(extract_summary("# a\n\n \n\n## b\n\nthird\nline\n\nfourth"), "third\nline");
    // Only the two ends of the note are trimmed, not the paragraph.
    assert_eq!(extract_summary("  first \n\nsecond  "), "first ");
    assert_eq!(extract_summary("a\n\n\nb"), "a");
    assert_eq!(extract_summary("#x\n\n\nb"), "\nb");
}

#[test]
fn summaries_leave_front_matter_out() {
    // No closing fence: the whole note counts, fence and all.
    assert_eq!(extract_summary("---\ntitle: x\n\nBody"), "---\ntitle: x");
    // What follows a third fence is not read.
    assert_eq!(extract_summary("---\na\n---\n# h\n---\nlater"), "");
    assert_eq!(extract_summary("---\na\n---\nbody\n---\nlater"), "body");
    assert_eq!(extract_summary("------"), "");
    assert_eq!(extract_summary("------rest"), "rest");
    assert_eq!(extract_summary("--- ---x--- y"), "x");
    // A fence that does not open the note is no fence.
    assert_eq!(extract_summary(" ---\na\n---\nb"), "---\na\n---\nb");
}

#[test]
fn long_summaries_are_cut_at_a_character() {
    let exact = "a".repeat(200);
    assert_eq!(extract_summary(&exact), exact);
    let long = "a".repeat(201);
    assert_eq!(extract_summary(&long), format!("{}...", "a".repeat(200)));
    // 199 bytes, then a character of two bytes that would end at byte 201.
    let wide = format!("{}\u{e9}tail", "b".repeat(199));
    assert_eq!(extract_summary(&wide), format!("{}...", "b".repeat(199)));
    // The same character ending at byte 200 is kept.
    let fits = format!("{}\u{e9}tail", "b".repeat(198));
    assert_eq!(extract_summary(&fits), format!("{}\u{e9}...", "b".repeat(198)));
    // Characters of four bytes: fifty of them fill the 200 bytes.
    let emoji = "\u{1F600}".repeat(51);
    assert_eq!(extract_summary(&emoji), format!("{}...", "\u{1F600}".repeat(50)));
}

#[test]
fn links_follow_the_brackets() {
    assert!(extract_links("").is_empty());
    assert!(extract_links("no links [here] or [[unclosed").is_empty());
    assert!(extract_links("[[]] and ]] alone").is_empty());
    assert_eq!(extract_links("[[a]][[b|c|d]]"), vec!["a", "b"]);
    // An alias alone leaves an empty target.
    assert_eq!(extract_links("[[|alias]]"), vec![""]);
    // Opening brackets inside a link start the link anew.
    assert_eq!(extract_links("[[a[[b]]"), vec!["b"]);
    // A third bracket belongs to the text.
    assert_eq!(extract_links("[[[a]]]"), vec!["[a"]);
    assert_eq!(extract_links("[[a]b]]"), vec!["a]b"]);
    assert_eq!(extract_links("[[a\nb]] x ]] [[\u{e9}t\u{e9}|y]]"), vec!["a\nb", "\u{e9}t\u{e9}"]);
    // Closing brackets end the link even without text after them.
    assert_eq!(extract_links("[[a]] [[b]"), vec!["a"]);
}

#[test]
fn tags_are_trimmed_sorted_and_unique() {
    assert!(extract_tags("").is_empty());
    assert!(extract_tags("# heading #! ## a#b").is_empty());
    assert_eq!(
        extract_tags("This has #tag1 and #tag-2 and #tag_3."),
        vec!["#tag-2", "#tag1", "#tag_3"]
    );
    assert_eq!(extract_tags("#b #a #b, #a! (#c) #a.b. #\u{e9}"), vec!["#a", "#a.b", "#b", "#\u{e9}"]);
    // Upper case sorts before lower case, and a prefix before what extends it.
    assert_eq!(extract_tags("#ab\t#a\n#B  #aB"), vec!["#B", "#a", "#aB", "#ab"]);
    // What follows the last tag character goes, hash signs included.
    assert_eq!(extract_tags("#a## ##b #c#d"), vec!["##b", "#a", "#c#d"]);
}

#[test]
fn insert_sorted_keeps_order_and_skips_what_is_there() {
    let mut list: Vec<String> = Vec::new();
    for item in ["m", "a", "z", "m", "b", "a", ""] {
        insert_sorted(&mut list, item.to_string());
    }
    assert_eq!(list, vec!["", "a", "b", "m", "z"]);
}

#[test]
fn vault_errors_have_texts() {
    assert_eq!(ObsidianError::Io("x".to_string()).message(), "IO error: x");
    assert_eq!(ObsidianError::NotConfigured.message(), "Vault not configured");
    assert_eq!(ObsidianError::InvalidPath("p".to_string()).message(), "Invalid vault path: p");
    assert_eq!(ObsidianError::NoteNotFound("n".to_string()).message(), "Note not found: n");
}

use dialectic::obsidian::indexer::chunk_note_content;

#[test]
fn notes_are_chunked_at_headings_and_breaks() {
    assert!(chunk_note_content("").is_empty());
    assert!(chunk_note_content(" \n\n").is_empty());
    assert_eq!(
        chunk_note_content("intro\n# A\ntext\n## B\nmore"),
        vec![
            ("intro\n".to_string(), 0),
            ("# A\ntext\n".to_string(), 1),
            ("## B\nmore\n".to_string(), 2),
        ]
    );
    // A heading after nothing but white space cuts nothing.
    assert_eq!(chunk_note_content("\n \n# A\r\nx"), vec![("\n \n# A\nx\n".to_string(), 0)]);

    let line = format!("{}\n", "n".repeat(99));
    let content = format!("{}\n{}", line.repeat(15), line.repeat(10));
    let chunks = chunk_note_content(&content);
    assert_eq!(chunks.len(), 2);
    assert_eq!(chunks[0], (format!("{}\n", line.repeat(15)), 0));
    assert_eq!(chunks[1], (line.repeat(10), 1));
    // Without a paragraph break a chunk only grows.
    assert_eq!(chunk_note_content(&line.repeat(50)).len(), 1);
}
