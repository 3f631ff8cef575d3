use dialectic::documents::chunker::FileEntry;
use dialectic::documents::listing::{
    has_supported_extension, is_hidden, is_listed_file, sort_entries, stands_before,
    MAX_LIST_DEPTH,
};
use dialectic::obsidian::indexer::{note_vectors, NOTE_CHUNK_THRESHOLD};
use dialectic::session::project_dir_name;
use dialectic::text::replace_char;

fn file(name: &str) -> FileEntry {
    FileEntry {
        name: name.to_string(),
        path: format!("/home/u/{}", name),
        is_directory: false,
        children: Vec::new(),
    }
}

fn directory(name: &str) -> FileEntry {
    FileEntry {
        name: name.to_string(),
        path: format!("/home/u/{}", name),
        is_directory: true,
        children: vec![file("inner.md")],
    }
}

fn names(entries: &[FileEntry]) -> Vec<&str> {
    entries.iter().map(|e| e.name.as_str()).collect()
}

#[test]
fn hidden_names_begin_with_a_dot() {
    assert!(is_hidden(".git"));
    assert!(is_hidden("."));
    assert!(!is_hidden("git."));
    assert!(!is_hidden(""));
    assert!(!is_hidden("a.b"));
    assert!(!is_hidden("é.md"));
}

#[test]
fn supported_extensions_are_matched_whole() {
    for extension in [
        "md", "markdown", "txt", "rs", "ts", "tsx", "js", "jsx", "py", "json", "yaml", "yml", "toml",
        "css", "html", "htm", "csv", "sh", "bash", "zsh", "swift", "go", "java", "c", "cpp", "h",
        "hpp", "rb", "lua", "sql", "xml", "svg", "env", "gitignore", "dockerfile",
    ] {
        assert!(has_supported_extension(extension), "{}", extension);
    }
    assert!(!has_supported_extension(""));
    assert!(!has_supported_extension("MD"));
    assert!(!has_supported_extension("mdx"));
    assert!(!has_supported_extension("pdf"));
    assert!(!has_supported_extension("m"));
}

#[test]
fn files_are_listed_by_extension_or_known_name() {
    assert!(is_listed_file("notes.md", "md"));
    assert!(is_listed_file("NOTES.MD", "MD"));
    assert!(is_listed_file("main.Rs", "Rs"));
    assert!(is_listed_file("Makefile", ""));
    assert!(is_listed_file("Dockerfile", ""));
    assert!(is_listed_file("Rakefile", ""));
    assert!(is_listed_file("Gemfile", ""));
    assert!(is_listed_file("LICENSE", ""));
    assert!(is_listed_file("README", ""));
    assert!(!is_listed_file("makefile", ""));
    assert!(!is_listed_file("readme", ""));
    assert!(!is_listed_file("photo.png", "png"));
    assert!(!is_listed_file("archive", ""));
}

#[test]
fn directories_stand_before_files() {
    assert!(stands_before(&directory("zeta"), &file("alpha.md")));
    assert!(!stands_before(&file("alpha.md"), &directory("zeta")));
    assert!(stands_before(&file("alpha.md"), &file("Beta.md")));
    assert!(!stands_before(&file("Beta.md"), &file("alpha.md")));
    assert!(!stands_before(&file("same.md"), &file("SAME.md")));
    assert!(!stands_before(&file("SAME.md"), &file("same.md")));
    assert!(stands_before(&file("a"), &file("ab")));
}

#[test]
fn entries_are_sorted_directories_first_then_by_name() {
    let sorted = sort_entries(vec![
        file("zebra.md"),
        directory("src"),
        file("Apple.txt"),
        file("banana.rs"),
        directory("Docs"),
        file("apple.TXT"),
    ]);
    assert_eq!(
        names(&sorted),
        vec!["Docs", "src", "Apple.txt", "apple.TXT", "banana.rs", "zebra.md"]
    );
    assert!(sorted[0].is_directory && sorted[1].is_directory);
    assert_eq!(sorted[0].children.len(), 1);
    assert_eq!(sorted[2].path, "/home/u/Apple.txt");

    assert!(sort_entries(Vec::new()).is_empty());
    assert_eq!(names(&sort_entries(vec![file("only")])), vec!["only"]);
    // Names that differ by case only keep the order in which they came.
    let kept = sort_entries(vec![file("b"), file("A"), file("a"), file("B")]);
    assert_eq!(names(&kept), vec!["A", "a", "b", "B"]);
}

#[test]
fn listing_depth_is_ten() {
    assert_eq!(MAX_LIST_DEPTH, 10);
}

#[test]
fn characters_are_replaced_one_for_one() {
    assert_eq!(replace_char("/Users/foo/bar", '/', '-'), "-Users-foo-bar");
    assert_eq!(replace_char("", '/', '-'), "");
    assert_eq!(replace_char("plain", '/', '-'), "plain");
    assert_eq!(replace_char("a/é/b", '/', '_'), "a_é_b");
    assert_eq!(replace_char("///", '/', '/'), "///");
}

#[test]
fn project_directory_has_hyphens_for_slashes() {
    assert_eq!(project_dir_name("/Users/foo/bar"), "-Users-foo-bar");
    assert_eq!(project_dir_name("relative"), "relative");
}

#[test]
fn small_note_is_one_vector() {
    assert_eq!(NOTE_CHUNK_THRESHOLD, 1_000);
    let vectors = note_vectors("folder/sub/note.md", "# A\ntext\n# B\nmore", 1_000);
    assert_eq!(vectors.len(), 1);
    assert_eq!(vectors[0].id, "obsidian_folder_sub_note.md");
    assert_eq!(vectors[0].document, "# A\ntext\n# B\nmore");
    assert_eq!(vectors[0].token_count, 1_000);
    assert_eq!(vectors[0].chunk, None);
}

#[test]
fn large_note_is_one_vector_for_each_chunk() {
    let vectors = note_vectors("folder/note.md", "intro\n# A\ntext\n## B\nmore", 1_001);
    assert_eq!(vectors.len(), 3);
    assert_eq!(vectors[0].id, "obsidian_folder_note.md_chunk0");
    assert_eq!(vectors[1].id, "obsidian_folder_note.md_chunk1");
    assert_eq!(vectors[2].id, "obsidian_folder_note.md_chunk2");
    assert_eq!(vectors[0].document, "intro\n");
    assert_eq!(vectors[1].document, "# A\ntext\n");
    assert_eq!(vectors[2].document, "## B\nmore\n");
    assert_eq!(vectors[0].token_count, 2);
    assert_eq!(vectors[1].token_count, 3);
    assert_eq!(vectors[2].token_count, 3);
    assert_eq!(vectors[0].chunk, Some((0, 3)));
    assert_eq!(vectors[2].chunk, Some((2, 3)));
    assert!(note_vectors("n.md", " \n", 5_000).is_empty());
}
