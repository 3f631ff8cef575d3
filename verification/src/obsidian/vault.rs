//! The index of a vault: its notes, by path, by title and by tag.
//!
//! The index is a list of notes and two lists of pairs. A path, a title or a
//! tag stands for the first entry that carries it; entering one that is there
//! already changes that entry, as in a map.

use vstd::prelude::*;
use vstd::string::{StrSliceExecFns, StringSliceAdditionalSpecFns};
use crate::chars::{is_whitespace_char, lowercase_of};
use crate::obsidian::query::MatchType;
use crate::obsidian::indexer::{
    NoteIndex, ObsidianError, extract_links, extract_summary, extract_tags, is_sorted_set_of,
    link_target, links_of, summary_of, tags_of,
};
use crate::obsidian::query::{
    MentionKind, mention_kind, mention_paths, mention_query, parse_mention, path_candidates,
};
use crate::seqs::{
    first_index_of, lemma_first_index_found, lemma_first_index_missing, lemma_replace_at,
    lemma_text_views_push, text_views,
};
use crate::text::{
    contains_text, estimate_tokens, holds_text, str_eq, to_chars, token_estimate, trim_range,
    trimmed,
};

verus! {

/// The index of a vault.
///
/// The times are in milliseconds since the Unix epoch.
#[derive(Debug)]
pub struct VaultIndex {
    /// The root of the vault.
    pub vault_path: String,
    /// The notes, each under its path from the root.
    pub notes: Vec<NoteIndex>,
    /// Titles in lower case, each with the path of its note.
    pub title_to_path: Vec<(String, String)>,
    /// Tags, each with the paths of the notes that carry it.
    pub tag_to_paths: Vec<(String, Vec<String>)>,
    pub last_indexed: i64,
    /// The time up to which the notes stand in the vector store.
    pub last_chroma_indexed: i64,
}

/// The paths of the notes, in order.
pub open spec fn note_paths(notes: Seq<NoteIndex>) -> Seq<Seq<char>> {
    Seq::new(notes.len(), |i: int| notes[i].path@)
}

/// The titles of the title entries, in order.
pub open spec fn title_keys(titles: Seq<(String, String)>) -> Seq<Seq<char>> {
    Seq::new(titles.len(), |i: int| titles[i].0@)
}

/// The tags of the tag entries, in order.
pub open spec fn tag_keys(tags: Seq<(String, Vec<String>)>) -> Seq<Seq<char>> {
    Seq::new(tags.len(), |i: int| tags[i].0@)
}

/// The position of the note at `path`.
pub open spec fn note_position(notes: Seq<NoteIndex>, path: Seq<char>) -> Option<int> {
    first_index_of(note_paths(notes), path)
}

/// The position of the entry of the title `title`.
pub open spec fn title_position(titles: Seq<(String, String)>, title: Seq<char>) -> Option<int> {
    first_index_of(title_keys(titles), title)
}

/// The position of the entry of the tag `tag`.
pub open spec fn tag_position(tags: Seq<(String, Vec<String>)>, tag: Seq<char>) -> Option<int> {
    first_index_of(tag_keys(tags), tag)
}

/// The position of the note at `path`.
pub fn find_note(notes: &Vec<NoteIndex>, path: &str) -> (found: Option<usize>)
    ensures
        match note_position(notes@, path@) {
            Some(i) => found == Some(i as usize) && 0 <= i < notes.len() && notes[i].path@ == path@,
            None => found is None,
        },
{
    let wanted = path.to_owned();
    let ghost keys = note_paths(notes@);
    let mut i: usize = 0;
    while i < notes.len()
        invariant
            i <= notes.len(),
            wanted@ == path@,
            keys == note_paths(notes@),
            forall|j: int| 0 <= j < i ==> keys[j] != path@,
        decreases notes.len() - i,
    {
        if notes[i].path == wanted {
            proof {
                lemma_first_index_found(keys, path@, i as int);
            }
            return Some(i);
        }
        i += 1;
    }
    proof {
        lemma_first_index_missing(keys, path@);
    }
    None
}

/// The position of the entry of the title `title`.
pub fn find_title(titles: &Vec<(String, String)>, title: &str) -> (found: Option<usize>)
    ensures
        match title_position(titles@, title@) {
            Some(i) => found == Some(i as usize) && 0 <= i < titles.len() && titles[i].0@ == title@,
            None => found is None,
        },
{
    let wanted = title.to_owned();
    let ghost keys = title_keys(titles@);
    let mut i: usize = 0;
    while i < titles.len()
        invariant
            i <= titles.len(),
            wanted@ == title@,
            keys == title_keys(titles@),
            forall|j: int| 0 <= j < i ==> keys[j] != title@,
        decreases titles.len() - i,
    {
        if titles[i].0 == wanted {
            proof {
                lemma_first_index_found(keys, title@, i as int);
            }
            return Some(i);
        }
        i += 1;
    }
    proof {
        lemma_first_index_missing(keys, title@);
    }
    None
}

/// The position of the entry of the tag `tag`.
pub fn find_tag(tags: &Vec<(String, Vec<String>)>, tag: &str) -> (found: Option<usize>)
    ensures
        match tag_position(tags@, tag@) {
            Some(i) => found == Some(i as usize) && 0 <= i < tags.len() && tags[i].0@ == tag@,
            None => found is None,
        },
{
    let wanted = tag.to_owned();
    let ghost keys = tag_keys(tags@);
    let mut i: usize = 0;
    while i < tags.len()
        invariant
            i <= tags.len(),
            wanted@ == tag@,
            keys == tag_keys(tags@),
            forall|j: int| 0 <= j < i ==> keys[j] != tag@,
        decreases tags.len() - i,
    {
        if tags[i].0 == wanted {
            proof {
                lemma_first_index_found(keys, tag@, i as int);
            }
            return Some(i);
        }
        i += 1;
    }
    proof {
        lemma_first_index_missing(keys, tag@);
    }
    None
}

/// The path that a link, taken as it stands, leads to: the link where a note
/// stands at it, the link with the extension of a note where a note stands
/// there, else the path that the index has for the link as a title, in lower
/// case.
pub open spec fn link_path(index: VaultIndex, link: Seq<char>) -> Option<Seq<char>> {
    let with_extension = link + seq!['.', 'm', 'd'];
    if note_position(index.notes@, link) is Some {
        Some(link)
    } else if note_position(index.notes@, with_extension) is Some {
        Some(with_extension)
    } else {
        match title_position(index.title_to_path@, lowercase_of(link)) {
            Some(i) => Some(index.title_to_path@[i].1@),
            None => None,
        }
    }
}

/// What a link names: the link without its alias and without the white space
/// at the two ends of what is left.
pub open spec fn link_name(link: Seq<char>) -> Seq<char> {
    let target = link_target(link);
    let range = trimmed(target, 0, target.len() as int);
    target.subrange(range.0, range.1)
}

impl VaultIndex {
    /// An index without notes for the vault at `vault_path`, made at `now`.
    /// Nothing of it stands in the vector store yet.
    pub fn new(vault_path: String, now: i64) -> (index: Self)
        ensures
            index.vault_path == vault_path,
            index.notes@.len() == 0,
            index.title_to_path@.len() == 0,
            index.tag_to_paths@.len() == 0,
            index.last_indexed == now,
            index.last_chroma_indexed == 0,
    {
        VaultIndex {
            vault_path,
            notes: Vec::new(),
            title_to_path: Vec::new(),
            tag_to_paths: Vec::new(),
            last_indexed: now,
            last_chroma_indexed: 0,
        }
    }

    /// The path that a link, taken as it stands, leads to.
    pub fn resolve_link_to_path(&self, link: &str) -> (path: Option<String>)
        ensures
            match link_path(*self, link@) {
                Some(found) => path matches Some(p) && p@ == found,
                None => path is None,
            },
    {
        if find_note(&self.notes, link).is_some() {
            return Some(link.to_owned());
        }
        proof {
            reveal_strlit(".md");
            assert(".md"@ =~= seq!['.', 'm', 'd']);
        }
        let with_extension = crate::text::concat(link, ".md");
        if find_note(&self.notes, with_extension.as_str()).is_some() {
            return Some(with_extension);
        }
        let lower = link.to_lowercase();
        match find_title(&self.title_to_path, lower.as_str()) {
            Some(i) => Some(self.title_to_path[i].1.clone()),
            None => None,
        }
    }

    /// The path of the note that a link names, with or without an alias.
    pub fn resolve_link(&self, link: &str) -> (path: Option<String>)
        ensures
            match link_path(*self, link_name(link@)) {
                Some(found) => path matches Some(p) && p@ == found,
                None => path is None,
            },
    {
        let name = read_link_name(link);
        self.resolve_link_to_path(name.as_str())
    }
}

/// What a link names.
pub fn read_link_name(link: &str) -> (name: String)
    ensures
        name@ == link_name(link@),
{
    let chars = to_chars(link);
    let end = crate::obsidian::indexer::target_end(&chars, 0, chars.len());
    proof {
        assert(chars@.subrange(0, chars.len() as int) =~= chars@);
    }
    let target = link.substring_char(0, end);
    let target_chars = to_chars(target);
    let range = trim_range(&target_chars, 0, target_chars.len());
    target.substring_char(range.0, range.1).to_owned()
}

/// The titles and paths of the title entries, in order.
pub open spec fn title_views(titles: Seq<(String, String)>) -> Seq<(Seq<char>, Seq<char>)> {
    Seq::new(titles.len(), |i: int| (titles[i].0@, titles[i].1@))
}

/// The tags and paths of the tag entries, in order.
pub open spec fn tag_views(tags: Seq<(String, Vec<String>)>) -> Seq<(Seq<char>, Seq<Seq<char>>)> {
    Seq::new(tags.len(), |i: int| (tags[i].0@, text_views(tags[i].1@)))
}

/// The keys of a list of pairs, in order.
pub open spec fn pair_keys<V>(pairs: Seq<(Seq<char>, V)>) -> Seq<Seq<char>> {
    Seq::new(pairs.len(), |i: int| pairs[i].0)
}

/// The title entries after `title` was entered with `path`: in the place of
/// the entry of the title, or at the end.
pub open spec fn titles_with(
    titles: Seq<(Seq<char>, Seq<char>)>,
    title: Seq<char>,
    path: Seq<char>,
) -> Seq<(Seq<char>, Seq<char>)> {
    match first_index_of(pair_keys(titles), title) {
        Some(i) => titles.update(i, (title, path)),
        None => titles.push((title, path)),
    }
}

/// The tag entries after `path` was entered under `tag`: at the end of the
/// paths of the tag, or as the only path of a new entry at the end.
pub open spec fn tags_with(
    tags: Seq<(Seq<char>, Seq<Seq<char>>)>,
    tag: Seq<char>,
    path: Seq<char>,
) -> Seq<(Seq<char>, Seq<Seq<char>>)> {
    match first_index_of(pair_keys(tags), tag) {
        Some(i) => tags.update(i, (tag, tags[i].1.push(path))),
        None => tags.push((tag, seq![path])),
    }
}

/// The tag entries after `path` was entered under each of `new_tags` in turn.
pub open spec fn tags_with_all(
    tags: Seq<(Seq<char>, Seq<Seq<char>>)>,
    new_tags: Seq<Seq<char>>,
    path: Seq<char>,
) -> Seq<(Seq<char>, Seq<Seq<char>>)>
    decreases new_tags.len(),
{
    if new_tags.len() == 0 {
        tags
    } else {
        tags_with_all(tags_with(tags, new_tags[0], path), new_tags.drop_first(), path)
    }
}

/// The notes after `note` was entered: in the place of the note at its path,
/// or at the end.
pub open spec fn notes_with(notes: Seq<NoteIndex>, note: NoteIndex) -> Seq<NoteIndex> {
    match note_position(notes, note.path@) {
        Some(i) => notes.update(i, note),
        None => notes.push(note),
    }
}

/// The keys of the title entries are the keys of their views.
proof fn lemma_title_keys(titles: Seq<(String, String)>)
    ensures
        title_keys(titles) == pair_keys(title_views(titles)),
{
    assert(title_keys(titles) =~= pair_keys(title_views(titles)));
}

/// The keys of the tag entries are the keys of their views.
proof fn lemma_tag_keys(tags: Seq<(String, Vec<String>)>)
    ensures
        tag_keys(tags) == pair_keys(tag_views(tags)),
{
    assert(tag_keys(tags) =~= pair_keys(tag_views(tags)));
}

/// What is read out of a note: its summary, the targets of its links, its
/// tags and the estimate of its tokens. No backlinks are known yet.
pub fn read_note(path: &str, title: &str, content: &str, modified: i64) -> (note: NoteIndex)
    ensures
        note.path@ == path@,
        note.title@ == title@,
        note.summary@ == summary_of(content@),
        text_views(note.links@) == links_of(content@),
        note.backlinks@.len() == 0,
        is_sorted_set_of(text_views(note.tags@), tags_of(content@)),
        note.modified == modified,
        note.token_count == token_estimate(content.spec_bytes().len()),
{
    NoteIndex {
        path: path.to_owned(),
        title: title.to_owned(),
        summary: extract_summary(content),
        links: extract_links(content),
        backlinks: Vec::new(),
        tags: extract_tags(content),
        modified,
        token_count: estimate_tokens(content.as_bytes().len()),
    }
}

/// Enters `title` with `path` into the title entries.
pub fn put_title(titles: &mut Vec<(String, String)>, title: String, path: String)
    ensures
        title_views(final(titles)@) == titles_with(title_views(old(titles)@), title@, path@),
{
    let ghost before = titles@;
    let ghost entry = (title@, path@);
    proof {
        lemma_title_keys(before);
    }
    match find_title(titles, title.as_str()) {
        Some(i) => {
            titles.set(i, (title, path));
            assert(title_views(titles@) =~= title_views(before).update(i as int, entry));
        },
        None => {
            titles.push((title, path));
            assert(title_views(titles@) =~= title_views(before).push(entry));
        },
    }
}

/// Enters `path` under `tag` into the tag entries.
pub fn put_tag(tags: &mut Vec<(String, Vec<String>)>, tag: String, path: String)
    ensures
        tag_views(final(tags)@) == tags_with(tag_views(old(tags)@), tag@, path@),
{
    let ghost before = tags@;
    proof {
        lemma_tag_keys(before);
    }
    match find_tag(tags, tag.as_str()) {
        Some(i) => {
            let entry = tags.remove(i);
            let mut paths = entry.1;
            proof {
                lemma_text_views_push(paths@, path);
            }
            paths.push(path);
            let changed = (entry.0, paths);
            proof {
                lemma_replace_at(before, i as int, changed);
            }
            tags.insert(i, changed);
            assert(tag_views(tags@) =~= tag_views(before).update(
                i as int,
                (tag@, tag_views(before)[i as int].1.push(path@)),
            ));
        },
        None => {
            let mut paths: Vec<String> = Vec::new();
            paths.push(path);
            assert(text_views(paths@) =~= seq![path@]);
            tags.push((tag, paths));
            assert(tag_views(tags@) =~= tag_views(before).push((tag@, seq![path@])));
        },
    }
}

impl VaultIndex {
    /// The index with a note more.
    ///
    /// The note stands under its path, its title in lower case leads to the
    /// path, and the path stands under each of its tags. A note that stood
    /// under the path gives way.
    pub fn add_note(self, note: NoteIndex) -> (index: Self)
        ensures
            index.vault_path == self.vault_path,
            index.last_indexed == self.last_indexed,
            index.last_chroma_indexed == self.last_chroma_indexed,
            index.notes@ == notes_with(self.notes@, note),
            title_views(index.title_to_path@) == titles_with(
                title_views(self.title_to_path@),
                lowercase_of(note.title@),
                note.path@,
            ),
            tag_views(index.tag_to_paths@) == tags_with_all(
                tag_views(self.tag_to_paths@),
                text_views(note.tags@),
                note.path@,
            ),
    {
        let mut titles = self.title_to_path;
        put_title(&mut titles, note.title.as_str().to_lowercase(), note.path.clone());
        let mut tags = self.tag_to_paths;
        let ghost start = tag_views(tags@);
        let ghost names = text_views(note.tags@);
        let mut k: usize = 0;
        assert(names.subrange(0, names.len() as int) =~= names);
        while k < note.tags.len()
            invariant
                k <= note.tags.len(),
                names == text_views(note.tags@),
                tags_with_all(
                    tag_views(tags@),
                    names.subrange(k as int, names.len() as int),
                    note.path@,
                ) == tags_with_all(start, names, note.path@),
            decreases note.tags.len() - k,
        {
            proof {
                let rest = names.subrange(k as int, names.len() as int);
                assert(rest[0] == note.tags[k as int]@);
                assert(rest.drop_first() =~= names.subrange(k + 1, names.len() as int));
            }
            put_tag(&mut tags, note.tags[k].clone(), note.path.clone());
            k += 1;
        }
        let mut notes = self.notes;
        match find_note(&notes, note.path.as_str()) {
            Some(i) => {
                notes.set(i, note);
            },
            None => {
                notes.push(note);
            },
        }
        VaultIndex {
            vault_path: self.vault_path,
            notes,
            title_to_path: titles,
            tag_to_paths: tags,
            last_indexed: self.last_indexed,
            last_chroma_indexed: self.last_chroma_indexed,
        }
    }
}

/// The positions of the notes at the paths, in the order of the paths; a
/// path without a note gives none.
pub open spec fn positions_of_paths(notes: Seq<NoteIndex>, paths: Seq<Seq<char>>) -> Seq<int>
    decreases paths.len(),
{
    if paths.len() == 0 {
        Seq::empty()
    } else {
        let before = positions_of_paths(notes, paths.drop_last());
        match note_position(notes, paths.last()) {
            Some(i) => before.push(i),
            None => before,
        }
    }
}

/// The positions of the notes whose title, in lower case, holds the query,
/// in the order of the notes.
pub open spec fn partial_title_matches(notes: Seq<NoteIndex>, query: Seq<char>) -> Seq<int>
    decreases notes.len(),
{
    if notes.len() == 0 {
        Seq::empty()
    } else {
        let before = partial_title_matches(notes.drop_last(), query);
        if holds_text(lowercase_of(notes.last().title@), query) {
            before.push(notes.len() - 1)
        } else {
            before
        }
    }
}

/// The notes that a query in lower case names by title: the note whose path
/// the index has for the title, else every note whose title holds the query.
pub open spec fn title_matches(index: VaultIndex, query: Seq<char>) -> Seq<int> {
    let exact = match title_position(index.title_to_path@, query) {
        Some(k) => note_position(index.notes@, index.title_to_path@[k].1@),
        None => None,
    };
    match exact {
        Some(i) => seq![i],
        None => partial_title_matches(index.notes@, query),
    }
}

/// The positions of the notes that a mention names.
///
/// A tag names the notes under the tag. A path names the note at the path,
/// with or without the prefix of the notes directory; where there is none,
/// and for every other mention, the mention is taken as a title.
pub open spec fn mention_positions(index: VaultIndex, mention: Seq<char>) -> Seq<int> {
    let query = mention_query(mention);
    match mention_kind(query) {
        MentionKind::Tag => match tag_position(index.tag_to_paths@, query) {
            Some(t) => positions_of_paths(index.notes@, text_views(index.tag_to_paths@[t].1@)),
            None => Seq::empty(),
        },
        MentionKind::Path => {
            let paths = mention_paths(query);
            match note_position(index.notes@, paths.0) {
                Some(i) => seq![i],
                None => match note_position(index.notes@, paths.1) {
                    Some(i) => seq![i],
                    None => title_matches(index, lowercase_of(query)),
                },
            }
        },
        MentionKind::Title => title_matches(index, lowercase_of(query)),
    }
}

/// The positions as numbers of the model.
pub open spec fn as_positions(found: Seq<usize>) -> Seq<int> {
    Seq::new(found.len(), |i: int| found[i] as int)
}

impl VaultIndex {
    /// The positions of the notes that a query in lower case names by title.
    fn find_by_title(&self, query: &str) -> (found: Vec<usize>)
        ensures
            as_positions(found@) == title_matches(*self, query@),
            forall|k: int| 0 <= k < found.len() ==> found[k] < self.notes.len(),
    {
        let mut found: Vec<usize> = Vec::new();
        match find_title(&self.title_to_path, query) {
            Some(k) => {
                match find_note(&self.notes, self.title_to_path[k].1.as_str()) {
                    Some(i) => {
                        found.push(i);
                        assert(as_positions(found@) =~= seq![i as int]);
                        return found;
                    },
                    None => {},
                }
            },
            None => {},
        }
        let needle = to_chars(query);
        let mut i: usize = 0;
        assert(self.notes@.take(0) =~= Seq::<NoteIndex>::empty());
        assert(as_positions(found@) =~= Seq::<int>::empty());
        while i < self.notes.len()
            invariant
                i <= self.notes.len(),
                needle@ == query@,
                as_positions(found@) == partial_title_matches(self.notes@.take(i as int), query@),
                forall|k: int| 0 <= k < found.len() ==> found[k] < self.notes.len(),
            decreases self.notes.len() - i,
        {
            proof {
                assert(self.notes@.take(i + 1).drop_last() =~= self.notes@.take(i as int));
                assert(self.notes@.take(i + 1).last() == self.notes@[i as int]);
            }
            let title = self.notes[i].title.as_str().to_lowercase();
            let hay = to_chars(title.as_str());
            if contains_text(&hay, &needle) {
                let ghost before = found@;
                found.push(i);
                assert(as_positions(found@) =~= as_positions(before).push(i as int));
            }
            i += 1;
        }
        assert(self.notes@.take(self.notes.len() as int) =~= self.notes@);
        found
    }

    /// The positions of the notes at the paths.
    fn find_by_paths(&self, paths: &Vec<String>) -> (found: Vec<usize>)
        ensures
            as_positions(found@) == positions_of_paths(self.notes@, text_views(paths@)),
            forall|k: int| 0 <= k < found.len() ==> found[k] < self.notes.len(),
    {
        let ghost names = text_views(paths@);
        let mut found: Vec<usize> = Vec::new();
        let mut k: usize = 0;
        assert(names.take(0) =~= Seq::<Seq<char>>::empty());
        assert(as_positions(found@) =~= Seq::<int>::empty());
        while k < paths.len()
            invariant
                k <= paths.len(),
                names == text_views(paths@),
                as_positions(found@) == positions_of_paths(self.notes@, names.take(k as int)),
                forall|j: int| 0 <= j < found.len() ==> found[j] < self.notes.len(),
            decreases paths.len() - k,
        {
            proof {
                assert(names.take(k + 1).drop_last() =~= names.take(k as int));
                assert(names.take(k + 1).last() == paths[k as int]@);
            }
            match find_note(&self.notes, paths[k].as_str()) {
                Some(i) => {
                    let ghost before = found@;
                    found.push(i);
                    assert(as_positions(found@) =~= as_positions(before).push(i as int));
                },
                None => {},
            }
            k += 1;
        }
        assert(names.take(paths.len() as int) =~= names);
        found
    }

    /// The positions of the notes that a mention names.
    pub fn resolve_mention(&self, mention: &str) -> (found: Vec<usize>)
        ensures
            as_positions(found@) == mention_positions(*self, mention@),
            forall|k: int| 0 <= k < found.len() ==> found[k] < self.notes.len(),
    {
        let parsed = parse_mention(mention);
        let query = parsed.query.as_str();
        match parsed.kind {
            MentionKind::Tag => match find_tag(&self.tag_to_paths, query) {
                Some(t) => self.find_by_paths(&self.tag_to_paths[t].1),
                None => {
                    let found: Vec<usize> = Vec::new();
                    assert(as_positions(found@) =~= Seq::<int>::empty());
                    found
                },
            },
            MentionKind::Path => {
                let paths = path_candidates(query);
                let first = find_note(&self.notes, paths.0.as_str());
                let second = find_note(&self.notes, paths.1.as_str());
                match first {
                    Some(i) => {
                        let mut found: Vec<usize> = Vec::new();
                        found.push(i);
                        assert(as_positions(found@) =~= seq![i as int]);
                        found
                    },
                    None => match second {
                        Some(i) => {
                            let mut found: Vec<usize> = Vec::new();
                            found.push(i);
                            assert(as_positions(found@) =~= seq![i as int]);
                            found
                        },
                        None => {
                            let lower = query.to_lowercase();
                            self.find_by_title(lower.as_str())
                        },
                    },
                }
            },
            MentionKind::Title => {
                let lower = query.to_lowercase();
                self.find_by_title(lower.as_str())
            },
        }
    }
}

/// The position of the note that a link of a note leads to.
pub open spec fn link_target_position(index: VaultIndex, link: Seq<char>) -> Option<int> {
    match link_path(index, link_name(link)) {
        Some(path) => note_position(index.notes@, path),
        None => None,
    }
}

/// The backlinks of all notes after the note at `at` was told of a link from
/// `source`: `source` stands at the end of its backlinks, unless it stands
/// among them.
pub open spec fn with_backlink(back: Seq<Seq<Seq<char>>>, at: int, source: Seq<char>) -> Seq<
    Seq<Seq<char>>,
> {
    if 0 <= at < back.len() && !back[at].contains(source) {
        back.update(at, back[at].push(source))
    } else {
        back
    }
}

/// The backlinks of all notes after the links of the notes were followed,
/// from link `link` of note `note` on.
pub open spec fn backlinks_from(index: VaultIndex, note: int, link: int, back: Seq<Seq<Seq<char>>>) -> Seq<
    Seq<Seq<char>>,
>
    decreases index.notes@.len() - note, index.notes@[note].links@.len() - link,
{
    if note < 0 || note >= index.notes@.len() || link < 0 {
        back
    } else if link >= index.notes@[note].links@.len() {
        backlinks_from(index, note + 1, 0, back)
    } else {
        backlinks_from(
            index,
            note,
            link + 1,
            match link_target_position(index, index.notes@[note].links@[link]@) {
                Some(at) => with_backlink(back, at, index.notes@[note].path@),
                None => back,
            },
        )
    }
}

/// The backlinks that the notes carry, in the order of the notes.
pub open spec fn backlinks_of(notes: Seq<NoteIndex>) -> Seq<Seq<Seq<char>>> {
    Seq::new(notes.len(), |i: int| text_views(notes[i].backlinks@))
}

/// The two notes agree in all but their backlinks.
pub open spec fn same_but_backlinks(a: NoteIndex, b: NoteIndex) -> bool {
    &&& a.path == b.path
    &&& a.title == b.title
    &&& a.summary == b.summary
    &&& a.links == b.links
    &&& a.tags == b.tags
    &&& a.modified == b.modified
    &&& a.token_count == b.token_count
}

/// Whether `wanted` stands among the texts.
fn holds_path(texts: &Vec<String>, wanted: &String) -> (held: bool)
    ensures
        held == text_views(texts@).contains(wanted@),
{
    let ghost views = text_views(texts@);
    let mut i: usize = 0;
    while i < texts.len()
        invariant
            i <= texts.len(),
            views == text_views(texts@),
            forall|j: int| 0 <= j < i ==> views[j] != wanted@,
        decreases texts.len() - i,
    {
        if texts[i] == *wanted {
            assert(views[i as int] == wanted@);
            return true;
        }
        i += 1;
    }
    false
}

impl VaultIndex {
    /// The position of the note that each link of each note leads to.
    fn link_targets(&self) -> (targets: Vec<Vec<Option<usize>>>)
        ensures
            targets.len() == self.notes.len(),
            forall|s: int|
                0 <= s < self.notes.len() ==> (#[trigger] targets[s]).len() == self.notes[s].links.len(),
            forall|s: int, l: int|
                0 <= s < self.notes.len() && 0 <= l < self.notes[s].links.len() ==> match link_target_position(
                    *self,
                    self.notes[s].links[l]@,
                ) {
                    Some(at) => (#[trigger] targets[s][l]) == Some(at as usize) && 0 <= at
                        < self.notes.len(),
                    None => targets[s][l] is None,
                },
    {
        let mut targets: Vec<Vec<Option<usize>>> = Vec::new();
        let mut s: usize = 0;
        while s < self.notes.len()
            invariant
                s <= self.notes.len(),
                targets.len() == s,
                forall|a: int| 0 <= a < s ==> (#[trigger] targets[a]).len() == self.notes[a].links.len(),
                forall|a: int, l: int|
                    0 <= a < s && 0 <= l < self.notes[a].links.len() ==> match link_target_position(
                        *self,
                        self.notes[a].links[l]@,
                    ) {
                        Some(at) => (#[trigger] targets[a][l]) == Some(at as usize) && 0 <= at
                            < self.notes.len(),
                        None => targets[a][l] is None,
                    },
            decreases self.notes.len() - s,
        {
            let links = &self.notes[s].links;
            let mut row: Vec<Option<usize>> = Vec::new();
            let mut l: usize = 0;
            while l < links.len()
                invariant
                    l <= links.len(),
                    row.len() == l,
                    forall|b: int|
                        0 <= b < l ==> match link_target_position(*self, links[b]@) {
                            Some(at) => (#[trigger] row[b]) == Some(at as usize) && 0 <= at
                                < self.notes.len(),
                            None => row[b] is None,
                        },
                decreases links.len() - l,
            {
                let target: Option<usize> = match self.resolve_link(links[l].as_str()) {
                    Some(path) => find_note(&self.notes, path.as_str()),
                    None => None,
                };
                row.push(target);
                l += 1;
            }
            targets.push(row);
            s += 1;
        }
        targets
    }

    /// The index with the backlinks of its notes filled in: every note is
    /// told, once, of each note that links to it, in the order of the notes
    /// and of their links.
    pub fn build_backlinks(self) -> (index: Self)
        ensures
            index.vault_path == self.vault_path,
            index.title_to_path == self.title_to_path,
            index.tag_to_paths == self.tag_to_paths,
            index.last_indexed == self.last_indexed,
            index.last_chroma_indexed == self.last_chroma_indexed,
            index.notes@.len() == self.notes@.len(),
            forall|i: int|
                0 <= i < self.notes@.len() ==> same_but_backlinks(#[trigger] index.notes@[i], self.notes@[i]),
            backlinks_of(index.notes@) == backlinks_from(self, 0, 0, backlinks_of(self.notes@)),
    {
        let targets = self.link_targets();
        let mut sources: Vec<String> = Vec::new();
        let mut i: usize = 0;
        while i < self.notes.len()
            invariant
                i <= self.notes.len(),
                sources.len() == i,
                forall|j: int| 0 <= j < i ==> (#[trigger] sources[j])@ == self.notes[j].path@,
            decreases self.notes.len() - i,
        {
            sources.push(self.notes[i].path.clone());
            i += 1;
        }
        let ghost given = self;
        let ghost start = backlinks_of(self.notes@);
        let ghost mut back = start;
        let mut notes = self.notes;
        let mut s: usize = 0;
        while s < targets.len()
            invariant
                s <= targets.len(),
                targets.len() == given.notes.len(),
                sources.len() == given.notes.len(),
                notes.len() == given.notes.len(),
                forall|j: int|
                    0 <= j < sources.len() ==> (#[trigger] sources[j])@ == given.notes[j].path@,
                forall|a: int|
                    0 <= a < given.notes.len() ==> (#[trigger] targets[a]).len()
                        == given.notes[a].links.len(),
                forall|a: int, l: int|
                    0 <= a < given.notes.len() && 0 <= l < given.notes[a].links.len()
                        ==> match link_target_position(given, given.notes[a].links[l]@) {
                        Some(at) => (#[trigger] targets[a][l]) == Some(at as usize) && 0 <= at
                            < given.notes.len(),
                        None => targets[a][l] is None,
                    },
                forall|j: int|
                    0 <= j < notes.len() ==> same_but_backlinks(#[trigger] notes@[j], given.notes@[j]),
                back == backlinks_of(notes@),
                backlinks_from(given, s as int, 0, back) == backlinks_from(given, 0, 0, start),
            decreases targets.len() - s,
        {
            let mut l: usize = 0;
            while l < targets[s].len()
                invariant
                    s < targets.len(),
                    l <= targets[s as int].len(),
                    targets.len() == given.notes.len(),
                    sources.len() == given.notes.len(),
                    notes.len() == given.notes.len(),
                    targets[s as int].len() == given.notes[s as int].links.len(),
                    sources[s as int]@ == given.notes[s as int].path@,
                    forall|b: int|
                        0 <= b < given.notes[s as int].links.len() ==> match link_target_position(
                            given,
                            given.notes[s as int].links[b]@,
                        ) {
                            Some(at) => (#[trigger] targets[s as int][b]) == Some(at as usize) && 0
                                <= at < given.notes.len(),
                            None => targets[s as int][b] is None,
                        },
                    forall|j: int|
                        0 <= j < notes.len() ==> same_but_backlinks(
                            #[trigger] notes@[j],
                            given.notes@[j],
                        ),
                    back == backlinks_of(notes@),
                    backlinks_from(given, s as int, l as int, back) == backlinks_from(
                        given,
                        0,
                        0,
                        start,
                    ),
                decreases targets[s as int].len() - l,
            {
                match targets[s][l] {
                    Some(at) => {
                        if !holds_path(&notes[at].backlinks, &sources[s]) {
                            let ghost before = notes@;
                            let note = notes.remove(at);
                            let mut backlinks = note.backlinks;
                            let source = sources[s].clone();
                            proof {
                                lemma_text_views_push(backlinks@, source);
                            }
                            backlinks.push(source);
                            let told = NoteIndex {
                                path: note.path,
                                title: note.title,
                                summary: note.summary,
                                links: note.links,
                                backlinks,
                                tags: note.tags,
                                modified: note.modified,
                                token_count: note.token_count,
                            };
                            proof {
                                lemma_replace_at(before, at as int, told);
                            }
                            notes.insert(at, told);
                            proof {
                                let next = with_backlink(back, at as int, sources[s as int]@);
                                assert(backlinks_of(notes@) =~= next);
                                back = next;
                            }
                        }
                    },
                    None => {},
                }
                l += 1;
            }
            s += 1;
        }
        VaultIndex {
            vault_path: self.vault_path,
            notes,
            title_to_path: self.title_to_path,
            tag_to_paths: self.tag_to_paths,
            last_indexed: self.last_indexed,
            last_chroma_indexed: self.last_chroma_indexed,
        }
    }
}

/// What a walk from note to note has found: the positions of the notes, in
/// the order in which they were found, and the paths that were seen.
pub struct Walk {
    pub related: Seq<int>,
    pub visited: Seq<Seq<char>>,
}

/// The walk after `path` was seen: a path that was not seen before is now,
/// and the note at it, if there is one, is found.
pub open spec fn walk_to(notes: Seq<NoteIndex>, walk: Walk, path: Seq<char>) -> Walk {
    if walk.visited.contains(path) {
        walk
    } else {
        Walk {
            related: match note_position(notes, path) {
                Some(i) => walk.related.push(i),
                None => walk.related,
            },
            visited: walk.visited.push(path),
        }
    }
}

/// The walk after the links from position `k` on were followed, each taken
/// as it stands.
pub open spec fn walk_links(index: VaultIndex, links: Seq<String>, k: int, walk: Walk) -> Walk
    decreases links.len() - k,
{
    if k < 0 || k >= links.len() {
        walk
    } else {
        walk_links(
            index,
            links,
            k + 1,
            match link_path(index, links[k]@) {
                Some(path) => walk_to(index.notes@, walk, path),
                None => walk,
            },
        )
    }
}

/// The walk after the paths from position `k` on were seen.
pub open spec fn walk_paths(notes: Seq<NoteIndex>, paths: Seq<Seq<char>>, k: int, walk: Walk) -> Walk
    decreases paths.len() - k,
{
    if k < 0 || k >= paths.len() {
        walk
    } else {
        walk_paths(notes, paths, k + 1, walk_to(notes, walk, paths[k]))
    }
}

/// The walk that starts at the note at `position` and takes one step: along
/// its links first, then along its backlinks.
pub open spec fn first_step(index: VaultIndex, position: int) -> Walk {
    let note = index.notes@[position];
    let start = Walk { related: Seq::empty(), visited: seq![note.path@] };
    walk_paths(
        index.notes@,
        text_views(note.backlinks@),
        0,
        walk_links(index, note.links@, 0, start),
    )
}

/// The paths of the notes at the positions, in order.
pub open spec fn paths_at(notes: Seq<NoteIndex>, positions: Seq<int>) -> Seq<Seq<char>> {
    Seq::new(positions.len(), |i: int| notes[positions[i]].path@)
}

/// The notes related to the note at `position`, down to `depth` steps: the
/// notes of the first step, and then, for each of these in turn, the notes
/// related to it down to one step less, as far as they were not seen.
pub open spec fn related_positions(index: VaultIndex, position: int, depth: nat) -> Seq<int>
    decreases depth, 1nat, 0nat,
{
    let step = first_step(index, position);
    if depth > 1 {
        walk_deeper(index, step.related, 0, depth, step).related
    } else {
        step.related
    }
}

/// The walk after the notes related to each of `direct`, from position `k`
/// on, were seen, each down to one step less than `depth`.
pub open spec fn walk_deeper(index: VaultIndex, direct: Seq<int>, k: int, depth: nat, walk: Walk) -> Walk
    decreases depth, 0nat, direct.len() - k,
{
    if k < 0 || k >= direct.len() || depth <= 1 {
        walk
    } else {
        let deeper = related_positions(index, direct[k], (depth - 1) as nat);
        walk_deeper(
            index,
            direct,
            k + 1,
            depth,
            walk_paths(index.notes@, paths_at(index.notes@, deeper), 0, walk),
        )
    }
}

/// A walk in the making.
struct WalkState {
    related: Vec<usize>,
    visited: Vec<String>,
}

impl WalkState {
    /// Where the walk stands.
    spec fn walk(&self) -> Walk {
        Walk { related: as_positions(self.related@), visited: text_views(self.visited@) }
    }

    /// Every note that was found stands in the index.
    spec fn is_within(&self, notes: Seq<NoteIndex>) -> bool {
        forall|k: int| 0 <= k < self.related.len() ==> self.related[k] < notes.len()
    }

    /// Sees a path.
    fn see(self, notes: &Vec<NoteIndex>, path: &String) -> (next: Self)
        requires
            self.is_within(notes@),
        ensures
            next.walk() == walk_to(notes@, self.walk(), path@),
            next.is_within(notes@),
    {
        if holds_path(&self.visited, path) {
            return self;
        }
        let mut related = self.related;
        let mut visited = self.visited;
        match find_note(notes, path.as_str()) {
            Some(i) => {
                let ghost before = related@;
                related.push(i);
                assert(as_positions(related@) =~= as_positions(before).push(i as int));
            },
            None => {},
        }
        proof {
            lemma_text_views_push(visited@, *path);
        }
        visited.push(path.clone());
        WalkState { related, visited }
    }
}

impl VaultIndex {
    /// The first step of a walk from the note at `position`.
    fn take_first_step(&self, position: usize) -> (state: WalkState)
        requires
            position < self.notes.len(),
        ensures
            state.walk() == first_step(*self, position as int),
            state.is_within(self.notes@),
    {
        let note = &self.notes[position];
        let mut visited: Vec<String> = Vec::new();
        visited.push(note.path.clone());
        let mut state = WalkState { related: Vec::new(), visited };
        proof {
            assert(state.walk().related =~= Seq::<int>::empty());
            assert(state.walk().visited =~= seq![note.path@]);
        }
        let ghost start = state.walk();
        let mut k: usize = 0;
        while k < note.links.len()
            invariant
                k <= note.links.len(),
                note == &self.notes[position as int],
                state.is_within(self.notes@),
                walk_links(*self, note.links@, k as int, state.walk()) == walk_links(
                    *self,
                    note.links@,
                    0,
                    start,
                ),
            decreases note.links.len() - k,
        {
            match self.resolve_link_to_path(note.links[k].as_str()) {
                Some(path) => {
                    state = state.see(&self.notes, &path);
                },
                None => {},
            }
            k += 1;
        }
        let ghost after_links = state.walk();
        let ghost backlinks = text_views(note.backlinks@);
        let mut b: usize = 0;
        while b < note.backlinks.len()
            invariant
                b <= note.backlinks.len(),
                note == &self.notes[position as int],
                backlinks == text_views(note.backlinks@),
                state.is_within(self.notes@),
                walk_paths(self.notes@, backlinks, b as int, state.walk()) == walk_paths(
                    self.notes@,
                    backlinks,
                    0,
                    after_links,
                ),
            decreases note.backlinks.len() - b,
        {
            state = state.see(&self.notes, &note.backlinks[b]);
            b += 1;
        }
        state
    }

    /// The positions of the notes related to the note at `position`, down to
    /// `depth` steps.
    fn related_from(&self, position: usize, depth: u8) -> (related: Vec<usize>)
        requires
            position < self.notes.len(),
        ensures
            as_positions(related@) == related_positions(*self, position as int, depth as nat),
            forall|k: int| 0 <= k < related.len() ==> related[k] < self.notes.len(),
        decreases depth,
    {
        let mut state = self.take_first_step(position);
        if depth <= 1 {
            return state.related;
        }
        let mut direct: Vec<usize> = Vec::new();
        let mut i: usize = 0;
        while i < state.related.len()
            invariant
                i <= state.related.len(),
                direct@ == state.related@.take(i as int),
            decreases state.related.len() - i,
        {
            direct.push(state.related[i]);
            assert(state.related@.take(i + 1) =~= state.related@.take(i as int).push(
                state.related[i as int],
            ));
            i += 1;
        }
        assert(state.related@.take(state.related.len() as int) =~= state.related@);
        let ghost step = state.walk();
        let ghost direct_positions = as_positions(direct@);
        let mut k: usize = 0;
        while k < direct.len()
            invariant
                k <= direct.len(),
                depth > 1,
                direct_positions == as_positions(direct@),
                forall|j: int| 0 <= j < direct.len() ==> direct[j] < self.notes.len(),
                state.is_within(self.notes@),
                walk_deeper(*self, direct_positions, k as int, depth as nat, state.walk()) == walk_deeper(
                    *self,
                    direct_positions,
                    0,
                    depth as nat,
                    step,
                ),
            decreases direct.len() - k,
        {
            let deeper = self.related_from(direct[k], depth - 1);
            let ghost paths = paths_at(self.notes@, as_positions(deeper@));
            let ghost before = state.walk();
            let mut d: usize = 0;
            while d < deeper.len()
                invariant
                    d <= deeper.len(),
                    paths == paths_at(self.notes@, as_positions(deeper@)),
                    forall|j: int| 0 <= j < deeper.len() ==> deeper[j] < self.notes.len(),
                    state.is_within(self.notes@),
                    walk_paths(self.notes@, paths, d as int, state.walk()) == walk_paths(
                        self.notes@,
                        paths,
                        0,
                        before,
                    ),
                decreases deeper.len() - d,
            {
                state = state.see(&self.notes, &self.notes[deeper[d]].path);
                d += 1;
            }
            k += 1;
        }
        state.related
    }

    /// The positions of the notes that the note at `path` links to or is
    /// linked from, and of theirs in turn, down to `depth` steps. Fails where
    /// no note stands at the path.
    pub fn get_related_notes(&self, path: &str, depth: u8) -> (related: Result<Vec<usize>, ObsidianError>)
        ensures
            match note_position(self.notes@, path@) {
                Some(position) => related matches Ok(found) && as_positions(found@)
                    == related_positions(*self, position, depth as nat) && forall|k: int|
                    0 <= k < found.len() ==> found[k] < self.notes.len(),
                None => related matches Err(ObsidianError::NoteNotFound(missing)) && missing@ == path@,
            },
    {
        match find_note(&self.notes, path) {
            Some(position) => Ok(self.related_from(position, depth)),
            None => Err(ObsidianError::NoteNotFound(path.to_owned())),
        }
    }
}

/// The relevance of a note whose title is the query: 1.0.
pub const RELEVANCE_EXACT_TITLE: u32 = 1_000_000;

/// The relevance of a note whose title holds the query: 0.8.
pub const RELEVANCE_PARTIAL_TITLE: u32 = 800_000;

/// The relevance of a note with a tag that holds the query: 0.7.
pub const RELEVANCE_TAG: u32 = 700_000;

/// What a term of the query counts for where the title holds it: 0.3.
pub const RELEVANCE_TITLE_TERM: u64 = 300_000;

/// What a term of the query counts for where the summary holds it: 0.1.
pub const RELEVANCE_SUMMARY_TERM: u64 = 100_000;

/// A note that matched a query.
///
/// The relevance is a fixed-point number in millionths.
#[derive(Debug, Clone, Copy, PartialEq, Eq, Structural)]
pub struct QueryHit {
    /// The position of the note in the index.
    pub position: usize,
    pub relevance: u32,
    pub match_type: MatchType,
}

/// The end of the word that starts at `from`.
pub open spec fn term_end(chars: Seq<char>, from: int) -> int
    decreases chars.len() - from,
{
    if from < 0 || from >= chars.len() || is_whitespace_char(chars[from]) {
        if from < 0 || from >= chars.len() {
            chars.len() as int
        } else {
            from
        }
    } else {
        term_end(chars, from + 1)
    }
}

/// A word ends after its start and within the text.
proof fn lemma_term_end(chars: Seq<char>, from: int)
    requires
        0 <= from <= chars.len(),
    ensures
        from <= term_end(chars, from) <= chars.len(),
        from < chars.len() && !is_whitespace_char(chars[from]) ==> from < term_end(chars, from),
    decreases chars.len() - from,
{
    if from < chars.len() && !is_whitespace_char(chars[from]) {
        lemma_term_end(chars, from + 1);
    }
}

/// The words of a text from position `i` on, after those found before.
pub open spec fn terms_from(chars: Seq<char>, i: int, found: Seq<Seq<char>>) -> Seq<Seq<char>>
    decreases chars.len() - i,
{
    if i < 0 || i >= chars.len() {
        found
    } else if is_whitespace_char(chars[i]) {
        terms_from(chars, i + 1, found)
    } else {
        let end = term_end(chars, i);
        if i < end <= chars.len() {
            terms_from(chars, end, found.push(chars.subrange(i, end)))
        } else {
            found
        }
    }
}

/// The words of a text: what stands between white space.
pub open spec fn terms_of(chars: Seq<char>) -> Seq<Seq<char>> {
    terms_from(chars, 0, Seq::empty())
}

/// How many of the terms stand somewhere in `hay`.
pub open spec fn terms_held(terms: Seq<Seq<char>>, hay: Seq<char>) -> nat
    decreases terms.len(),
{
    if terms.len() == 0 {
        0
    } else {
        terms_held(terms.drop_last(), hay) + if holds_text(hay, terms.last()) {
            1nat
        } else {
            0nat
        }
    }
}

/// Some tag, in lower case, holds the query.
pub open spec fn some_tag_holds(tags: Seq<String>, query: Seq<char>) -> bool {
    exists|k: int| 0 <= k < tags.len() && holds_text(lowercase_of(#[trigger] tags[k]@), query)
}

/// How a note matches a query in lower case, and how relevant it is; nothing
/// where it does not match.
///
/// A title that is the query counts most, then a title that holds it, then a
/// tag that holds it. Else the terms of the query count that the title or the
/// summary holds, three times as much in the title, over the number of terms.
pub open spec fn note_match(note: NoteIndex, query: Seq<char>) -> Option<(u32, MatchType)> {
    let title = lowercase_of(note.title@);
    let terms = terms_of(query);
    if title == query {
        Some((RELEVANCE_EXACT_TITLE, MatchType::ExactTitle))
    } else if holds_text(title, query) {
        Some((RELEVANCE_PARTIAL_TITLE, MatchType::PartialTitle))
    } else if some_tag_holds(note.tags@, query) {
        Some((RELEVANCE_TAG, MatchType::Tag))
    } else {
        let in_title = terms_held(terms, title);
        let in_summary = terms_held(terms, lowercase_of(note.summary@));
        if in_title > 0 || in_summary > 0 {
            Some(
                (
                    ((in_title * RELEVANCE_TITLE_TERM + in_summary * RELEVANCE_SUMMARY_TERM)
                        / terms.len() as int) as u32,
                    MatchType::Content,
                ),
            )
        } else {
            None
        }
    }
}

/// What the search has gathered: the hits in the order of the notes, and the
/// tokens that they take.
pub struct Gathered {
    pub hits: Seq<QueryHit>,
    pub tokens: nat,
}

/// The hits among the first `upto` notes that fit into the budget: a note
/// that matches is a hit unless its tokens, with those of the hits before
/// it, go beyond the budget.
pub open spec fn gathered_upto(notes: Seq<NoteIndex>, query: Seq<char>, budget: u32, upto: int) -> Gathered
    decreases upto,
{
    if upto <= 0 || upto > notes.len() {
        Gathered { hits: Seq::empty(), tokens: 0 }
    } else {
        let before = gathered_upto(notes, query, budget, upto - 1);
        let note = notes[upto - 1];
        match note_match(note, query) {
            Some((relevance, match_type)) => if before.tokens + note.token_count > budget {
                before
            } else {
                Gathered {
                    hits: before.hits.push(
                        QueryHit { position: (upto - 1) as usize, relevance, match_type },
                    ),
                    tokens: before.tokens + note.token_count as nat,
                }
            },
            None => before,
        }
    }
}

/// The place of a hit among ranked hits: before the first that is less
/// relevant, and so behind all that are as relevant.
pub open spec fn rank_of(ranked: Seq<QueryHit>, relevance: u32) -> int
    decreases ranked.len(),
{
    if ranked.len() == 0 || ranked[0].relevance < relevance {
        0
    } else {
        1 + rank_of(ranked.drop_first(), relevance)
    }
}

/// The place of a hit lies among the ranked hits or at their end.
proof fn lemma_rank_of(ranked: Seq<QueryHit>, relevance: u32)
    ensures
        0 <= rank_of(ranked, relevance) <= ranked.len(),
    decreases ranked.len(),
{
    if ranked.len() > 0 && ranked[0].relevance >= relevance {
        lemma_rank_of(ranked.drop_first(), relevance);
    }
}

/// The first `upto` hits, the most relevant first; hits of one relevance
/// keep their order.
pub open spec fn ranked_upto(hits: Seq<QueryHit>, upto: int) -> Seq<QueryHit>
    decreases upto,
{
    if upto <= 0 || upto > hits.len() {
        Seq::empty()
    } else {
        let before = ranked_upto(hits, upto - 1);
        before.insert(rank_of(before, hits[upto - 1].relevance), hits[upto - 1])
    }
}

/// The notes that match a query in lower case within a budget of tokens,
/// the most relevant first.
pub open spec fn query_hits(notes: Seq<NoteIndex>, query: Seq<char>, budget: u32) -> Seq<QueryHit> {
    let hits = gathered_upto(notes, query, budget, notes.len() as int).hits;
    ranked_upto(hits, hits.len() as int)
}

/// The words of a text.
pub fn split_terms(text: &str) -> (terms: Vec<Vec<char>>)
    ensures
        Seq::new(terms.len() as nat, |k: int| terms[k]@) == terms_of(text@),
{
    let chars = to_chars(text);
    let mut terms: Vec<Vec<char>> = Vec::new();
    let mut i: usize = 0;
    let ghost mut found: Seq<Seq<char>> = Seq::empty();
    assert(Seq::new(terms.len() as nat, |k: int| terms[k]@) =~= found);
    while i < chars.len()
        invariant
            i <= chars.len(),
            chars@ == text@,
            found == Seq::new(terms.len() as nat, |k: int| terms[k]@),
            terms_from(chars@, i as int, found) == terms_of(chars@),
        decreases chars.len() - i,
    {
        if chars[i].is_whitespace() {
            i += 1;
        } else {
            proof {
                lemma_term_end(chars@, i as int);
            }
            let mut word: Vec<char> = Vec::new();
            let mut end: usize = i;
            while end < chars.len() && !chars[end].is_whitespace()
                invariant
                    i <= end <= chars.len(),
                    word@ == chars@.subrange(i as int, end as int),
                    term_end(chars@, end as int) == term_end(chars@, i as int),
                decreases chars.len() - end,
            {
                word.push(chars[end]);
                assert(chars@.subrange(i as int, end + 1) =~= chars@.subrange(i as int, end as int).push(
                    chars[end as int],
                ));
                end += 1;
            }
            proof {
                found = found.push(word@);
            }
            terms.push(word);
            assert(Seq::new(terms.len() as nat, |k: int| terms[k]@) =~= found);
            i = end;
        }
    }
    terms
}

/// How many of the terms stand somewhere in `hay`.
fn count_terms_held(terms: &Vec<Vec<char>>, hay: &Vec<char>) -> (count: usize)
    ensures
        count == terms_held(Seq::new(terms.len() as nat, |k: int| terms[k]@), hay@),
        count <= terms.len(),
{
    let ghost words = Seq::new(terms.len() as nat, |k: int| terms[k]@);
    let mut count: usize = 0;
    let mut k: usize = 0;
    assert(words.take(0) =~= Seq::<Seq<char>>::empty());
    while k < terms.len()
        invariant
            k <= terms.len(),
            words == Seq::new(terms.len() as nat, |k: int| terms[k]@),
            count == terms_held(words.take(k as int), hay@),
            count <= k,
        decreases terms.len() - k,
    {
        proof {
            assert(words.take(k + 1).drop_last() =~= words.take(k as int));
            assert(words.take(k + 1).last() == terms[k as int]@);
        }
        if contains_text(hay, &terms[k]) {
            count += 1;
        }
        k += 1;
    }
    assert(words.take(terms.len() as int) =~= words);
    count
}

/// Whether some tag, in lower case, holds the query.
fn any_tag_holds(tags: &Vec<String>, query: &Vec<char>) -> (held: bool)
    ensures
        held == some_tag_holds(tags@, query@),
{
    let mut k: usize = 0;
    while k < tags.len()
        invariant
            k <= tags.len(),
            forall|j: int| 0 <= j < k ==> !holds_text(lowercase_of(#[trigger] tags[j]@), query@),
        decreases tags.len() - k,
    {
        let lower = tags[k].as_str().to_lowercase();
        let hay = to_chars(lower.as_str());
        if contains_text(&hay, query) {
            return true;
        }
        k += 1;
    }
    false
}

/// How a note matches a query in lower case, given the query's characters and
/// its terms.
fn match_note(note: &NoteIndex, query: &str, query_chars: &Vec<char>, terms: &Vec<Vec<char>>) -> (matched:
    Option<(u32, MatchType)>)
    requires
        query_chars@ == query@,
        Seq::new(terms.len() as nat, |k: int| terms[k]@) == terms_of(query@),
    ensures
        matched == note_match(*note, query@),
{
    let title = note.title.as_str().to_lowercase();
    let title_chars = to_chars(title.as_str());
    if str_eq(title.as_str(), query) {
        return Some((RELEVANCE_EXACT_TITLE, MatchType::ExactTitle));
    }
    if contains_text(&title_chars, query_chars) {
        return Some((RELEVANCE_PARTIAL_TITLE, MatchType::PartialTitle));
    }
    if any_tag_holds(&note.tags, query_chars) {
        return Some((RELEVANCE_TAG, MatchType::Tag));
    }
    let summary = note.summary.as_str().to_lowercase();
    let summary_chars = to_chars(summary.as_str());
    let in_title = count_terms_held(terms, &title_chars);
    let in_summary = count_terms_held(terms, &summary_chars);
    if in_title > 0 || in_summary > 0 {
        let count: u128 = terms.len() as u128;
        assert(in_title * 300_000 + in_summary * 100_000 <= count * 400_000) by (nonlinear_arith)
            requires
                0 <= in_title <= count,
                0 <= in_summary <= count,
        ;
        let weighed: u128 = in_title as u128 * RELEVANCE_TITLE_TERM as u128 + in_summary as u128
            * RELEVANCE_SUMMARY_TERM as u128;
        let relevance: u128 = weighed / count;
        assert(relevance <= 400_000) by (nonlinear_arith)
            requires
                relevance == weighed / count,
                0 <= weighed <= count * 400_000,
                count > 0,
        ;
        Some((relevance as u32, MatchType::Content))
    } else {
        None
    }
}

/// Puts a hit at its place among ranked hits.
fn insert_ranked(ranked: &mut Vec<QueryHit>, hit: QueryHit)
    ensures
        final(ranked)@ == old(ranked)@.insert(rank_of(old(ranked)@, hit.relevance), hit),
{
    let ghost all = ranked@;
    let mut at: usize = 0;
    proof {
        lemma_rank_of(all, hit.relevance);
        assert(all.subrange(0, all.len() as int) =~= all);
    }
    while at < ranked.len() && ranked[at].relevance >= hit.relevance
        invariant
            at <= ranked.len(),
            ranked@ == all,
            rank_of(all, hit.relevance) == at + rank_of(
                all.subrange(at as int, all.len() as int),
                hit.relevance,
            ),
        decreases ranked.len() - at,
    {
        proof {
            let rest = all.subrange(at as int, all.len() as int);
            assert(rest[0] == all[at as int]);
            assert(rest.drop_first() =~= all.subrange(at + 1, all.len() as int));
        }
        at += 1;
    }
    proof {
        let rest = all.subrange(at as int, all.len() as int);
        if at < all.len() {
            assert(rest[0] == all[at as int]);
        }
    }
    ranked.insert(at, hit);
}

impl VaultIndex {
    /// The notes that match a query within a budget of tokens, the most
    /// relevant first. Upper and lower case are not told apart.
    pub fn query_notes(&self, query: &str, budget: u32) -> (hits: Vec<QueryHit>)
        ensures
            hits@ == query_hits(self.notes@, lowercase_of(query@), budget),
    {
        let lower = query.to_lowercase();
        let query_chars = to_chars(lower.as_str());
        let terms = split_terms(lower.as_str());
        let mut gathered: Vec<QueryHit> = Vec::new();
        let mut tokens: u32 = 0;
        let mut i: usize = 0;
        while i < self.notes.len()
            invariant
                i <= self.notes.len(),
                query_chars@ == lower@,
                Seq::new(terms.len() as nat, |k: int| terms[k]@) == terms_of(lower@),
                tokens <= budget,
                gathered@ == gathered_upto(self.notes@, lower@, budget, i as int).hits,
                tokens == gathered_upto(self.notes@, lower@, budget, i as int).tokens,
            decreases self.notes.len() - i,
        {
            let note = &self.notes[i];
            match match_note(note, lower.as_str(), &query_chars, &terms) {
                Some((relevance, match_type)) => {
                    if tokens as u64 + note.token_count as u64 <= budget as u64 {
                        tokens = tokens + note.token_count;
                        gathered.push(QueryHit { position: i, relevance, match_type });
                    }
                },
                None => {},
            }
            i += 1;
        }
        let mut ranked: Vec<QueryHit> = Vec::new();
        let mut k: usize = 0;
        while k < gathered.len()
            invariant
                k <= gathered.len(),
                ranked@ == ranked_upto(gathered@, k as int),
            decreases gathered.len() - k,
        {
            insert_ranked(&mut ranked, gathered[k]);
            k += 1;
        }
        ranked
    }
}

} // verus!
