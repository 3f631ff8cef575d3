//! Which files a listing of a directory shows, and in what order.

use vstd::prelude::*;
use crate::chars::lowercase_of;
use crate::documents::chunker::FileEntry;
use crate::text::{TextOrder, str_eq, text_before, text_order, to_chars};

verus! {

/// How deep below a directory files are listed.
pub const MAX_LIST_DEPTH: u32 = 10;

/// The extension, in lower case, is that of a text file that the document
/// viewer shows.
pub open spec fn is_supported_extension(extension: Seq<char>) -> bool {
    ||| extension == "md"@
    ||| extension == "markdown"@
    ||| extension == "txt"@
    ||| extension == "rs"@
    ||| extension == "ts"@
    ||| extension == "tsx"@
    ||| extension == "js"@
    ||| extension == "jsx"@
    ||| extension == "py"@
    ||| extension == "json"@
    ||| extension == "yaml"@
    ||| extension == "yml"@
    ||| extension == "toml"@
    ||| extension == "css"@
    ||| extension == "html"@
    ||| extension == "htm"@
    ||| extension == "csv"@
    ||| extension == "sh"@
    ||| extension == "bash"@
    ||| extension == "zsh"@
    ||| extension == "swift"@
    ||| extension == "go"@
    ||| extension == "java"@
    ||| extension == "c"@
    ||| extension == "cpp"@
    ||| extension == "h"@
    ||| extension == "hpp"@
    ||| extension == "rb"@
    ||| extension == "lua"@
    ||| extension == "sql"@
    ||| extension == "xml"@
    ||| extension == "svg"@
    ||| extension == "env"@
    ||| extension == "gitignore"@
    ||| extension == "dockerfile"@
}

/// The name is that of a file without an extension that is shown all the
/// same.
pub open spec fn is_known_plain_name(name: Seq<char>) -> bool {
    ||| name == "Makefile"@
    ||| name == "Dockerfile"@
    ||| name == "Rakefile"@
    ||| name == "Gemfile"@
    ||| name == "LICENSE"@
    ||| name == "README"@
}

/// The name is that of a hidden file or directory: it starts with a dot.
pub open spec fn is_hidden_name(name: Seq<char>) -> bool {
    name.len() > 0 && name[0] == '.'
}

/// Whether a file or a directory is hidden.
pub fn is_hidden(name: &str) -> (hidden: bool)
    ensures
        hidden == is_hidden_name(name@),
{
    let chars = to_chars(name);
    chars.len() > 0 && chars[0] == '.'
}

/// Whether the extension, in lower case, is that of a text file that the
/// document viewer shows.
pub fn has_supported_extension(extension: &str) -> (supported: bool)
    ensures
        supported == is_supported_extension(extension@),
{
    str_eq(extension, "md") || str_eq(extension, "markdown") || str_eq(extension, "txt") || str_eq(
        extension,
        "rs",
    ) || str_eq(extension, "ts") || str_eq(extension, "tsx") || str_eq(extension, "js") || str_eq(
        extension,
        "jsx",
    ) || str_eq(extension, "py") || str_eq(extension, "json") || str_eq(extension, "yaml") || str_eq(
        extension,
        "yml",
    ) || str_eq(extension, "toml") || str_eq(extension, "css") || str_eq(extension, "html") || str_eq(
        extension,
        "htm",
    ) || str_eq(extension, "csv") || str_eq(extension, "sh") || str_eq(extension, "bash") || str_eq(
        extension,
        "zsh",
    ) || str_eq(extension, "swift") || str_eq(extension, "go") || str_eq(extension, "java") || str_eq(
        extension,
        "c",
    ) || str_eq(extension, "cpp") || str_eq(extension, "h") || str_eq(extension, "hpp") || str_eq(
        extension,
        "rb",
    ) || str_eq(extension, "lua") || str_eq(extension, "sql") || str_eq(extension, "xml") || str_eq(
        extension,
        "svg",
    ) || str_eq(extension, "env") || str_eq(extension, "gitignore") || str_eq(extension, "dockerfile")
}

/// Whether a file is listed: one with a supported extension, taken in lower
/// case, or with one of the known names without an extension.
pub fn is_listed_file(name: &str, extension: &str) -> (listed: bool)
    ensures
        listed == (is_supported_extension(lowercase_of(extension@)) || is_known_plain_name(name@)),
{
    let lower = extension.to_lowercase();
    has_supported_extension(lower.as_str()) || str_eq(name, "Makefile") || str_eq(name, "Dockerfile")
        || str_eq(name, "Rakefile") || str_eq(name, "Gemfile") || str_eq(name, "LICENSE") || str_eq(
        name,
        "README",
    )
}

/// The entry `a` has to stand before the entry `b` in a listing: a directory
/// before a file, and else the one whose name, in lower case, comes first.
pub open spec fn lists_before(a: FileEntry, b: FileEntry) -> bool {
    if a.is_directory != b.is_directory {
        a.is_directory
    } else {
        text_before(lowercase_of(a.name@), lowercase_of(b.name@))
    }
}

/// Whether the entry `a` has to stand before the entry `b` in a listing.
pub fn stands_before(a: &FileEntry, b: &FileEntry) -> (before: bool)
    ensures
        before == lists_before(*a, *b),
{
    if a.is_directory != b.is_directory {
        return a.is_directory;
    }
    let first = a.name.as_str().to_lowercase();
    let second = b.name.as_str().to_lowercase();
    match text_order(first.as_str(), second.as_str()) {
        TextOrder::Before => true,
        TextOrder::Same | TextOrder::After => false,
    }
}

/// The place of an entry among sorted entries: before the first that has to
/// stand after it, and so behind all that it need not stand before.
pub open spec fn place_of(sorted: Seq<FileEntry>, entry: FileEntry) -> int
    decreases sorted.len(),
{
    if sorted.len() == 0 || lists_before(entry, sorted[0]) {
        0
    } else {
        1 + place_of(sorted.drop_first(), entry)
    }
}

/// The place of an entry lies among the sorted entries or at their end.
proof fn lemma_place_of(sorted: Seq<FileEntry>, entry: FileEntry)
    ensures
        0 <= place_of(sorted, entry) <= sorted.len(),
    decreases sorted.len(),
{
    if sorted.len() > 0 && !lists_before(entry, sorted[0]) {
        lemma_place_of(sorted.drop_first(), entry);
    }
}

/// The first `upto` entries in the order of a listing; entries of which none
/// has to stand before the other keep their order.
pub open spec fn sorted_upto(entries: Seq<FileEntry>, upto: int) -> Seq<FileEntry>
    decreases upto,
{
    if upto <= 0 || upto > entries.len() {
        Seq::empty()
    } else {
        let before = sorted_upto(entries, upto - 1);
        before.insert(place_of(before, entries[upto - 1]), entries[upto - 1])
    }
}

/// Puts the entries of a directory into the order of a listing: directories
/// first, then by name without regard to case.
pub fn sort_entries(entries: Vec<FileEntry>) -> (sorted: Vec<FileEntry>)
    ensures
        sorted@ == sorted_upto(entries@, entries.len() as int),
{
    let ghost all = entries@;
    let ghost total = entries.len();
    let mut rest = entries;
    let mut sorted: Vec<FileEntry> = Vec::new();
    let mut taken: usize = 0;
    while rest.len() > 0
        invariant
            taken + rest.len() == total,
            total == all.len(),
            rest@ == all.subrange(taken as int, total as int),
            sorted@ == sorted_upto(all, taken as int),
        decreases rest.len(),
    {
        proof {
            assert(rest@[0] == all[taken as int]);
            assert(rest@.remove(0) =~= all.subrange(taken + 1, total as int));
        }
        let entry = rest.remove(0);
        let ghost ranked = sorted@;
        let mut at: usize = 0;
        proof {
            lemma_place_of(ranked, entry);
            assert(ranked.subrange(0, ranked.len() as int) =~= ranked);
        }
        while at < sorted.len() && !stands_before(&entry, &sorted[at])
            invariant
                at <= sorted.len(),
                sorted@ == ranked,
                place_of(ranked, entry) == at + place_of(
                    ranked.subrange(at as int, ranked.len() as int),
                    entry,
                ),
            decreases sorted.len() - at,
        {
            proof {
                let tail = ranked.subrange(at as int, ranked.len() as int);
                assert(tail[0] == ranked[at as int]);
                assert(tail.drop_first() =~= ranked.subrange(at + 1, ranked.len() as int));
            }
            at += 1;
        }
        proof {
            let tail = ranked.subrange(at as int, ranked.len() as int);
            if at < ranked.len() {
                assert(tail[0] == ranked[at as int]);
            }
        }
        sorted.insert(at, entry);
        taken += 1;
    }
    sorted
}

} // verus!
