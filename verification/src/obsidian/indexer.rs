//! What is read out of the notes of a vault.

use vstd::prelude::*;
use vstd::string::{StrSliceExecFns, StringExecFns, StringSliceAdditionalSpecFns};
use vstd::utf8::{
    decode_utf8, encode_utf8, encode_utf8_decode_utf8, encode_utf8_valid_utf8, is_char_boundary,
    is_char_boundary_start_end_of_seq,
};
use crate::documents::chunker::{
    find_paragraph_boundary, is_blank_bytes, paragraph_boundary, push_line,
};
use crate::text::is_blank_text;
use crate::utf8_text::{HASH_SIGN, LINE_FEED, line_content_end, next_line_start, read_line, slice};
use crate::seqs::{lemma_text_views_push, text_views};
use crate::chars::{is_alphanumeric_char, is_whitespace_char};
use crate::text::{
    TextOrder, concat, decimal, estimate_tokens, find_match, first_match, is_blank, is_blank_range,
    lemma_first_match, matches_at, push_decimal, replace_char, replaced, text_before, text_order,
    to_chars, token_estimate, trim_range, trimmed,
};

verus! {

/// An error of the vault.
#[derive(Debug, Clone)]
pub enum ObsidianError {
    /// An error of the operating system, by its text.
    Io(String),
    NotConfigured,
    InvalidPath(String),
    NoteNotFound(String),
}

impl ObsidianError {
    /// The text of the error.
    pub open spec fn message_of(&self) -> Seq<char> {
        match *self {
            ObsidianError::Io(detail) => "IO error: "@ + detail@,
            ObsidianError::NotConfigured => "Vault not configured"@,
            ObsidianError::InvalidPath(detail) => "Invalid vault path: "@ + detail@,
            ObsidianError::NoteNotFound(path) => "Note not found: "@ + path@,
        }
    }

    /// The text of the error.
    pub fn message(&self) -> (text: String)
        ensures
            text@ == self.message_of(),
    {
        match self {
            ObsidianError::Io(detail) => concat("IO error: ", detail.as_str()),
            ObsidianError::NotConfigured => "Vault not configured".to_owned(),
            ObsidianError::InvalidPath(detail) => concat("Invalid vault path: ", detail.as_str()),
            ObsidianError::NoteNotFound(path) => concat("Note not found: ", path.as_str()),
        }
    }
}

/// What the index holds of a note.
///
/// `modified` is a time in milliseconds since the Unix epoch.
#[derive(Debug, Clone)]
pub struct NoteIndex {
    /// The path of the note, from the root of the vault.
    pub path: String,
    /// The file name of the note without its extension.
    pub title: String,
    /// The first paragraph of the note.
    pub summary: String,
    /// The targets of the links in the note.
    pub links: Vec<String>,
    /// The paths of the notes that link to this one.
    pub backlinks: Vec<String>,
    pub tags: Vec<String>,
    pub modified: i64,
    pub token_count: u32,
}

/// What indexing a vault did.
#[derive(Debug, Clone)]
pub struct IndexStats {
    pub notes_indexed: u32,
    pub errors: Vec<String>,
    pub last_indexed: i64,
}

/// The tokens from which a note is cut into several chunks.
pub const NOTE_CHUNK_THRESHOLD: u32 = 1_000;

/// The bytes that a chunk of a note aims at.
pub const NOTE_CHUNK_TARGET: usize = 2_000;

/// Where the scan for links stands in a note.
pub struct LinkScan {
    /// The position of the next character to read.
    pub position: int,
    /// Whether a link was opened and not yet closed.
    pub in_link: bool,
    /// The position after the brackets that opened the link.
    pub start: int,
    /// The targets found so far.
    pub links: Seq<Seq<char>>,
}

/// Two opening brackets stand at position `i`.
pub open spec fn opens_link(chars: Seq<char>, i: int) -> bool {
    i + 1 < chars.len() && chars[i] == '[' && chars[i + 1] == '['
}

/// Two closing brackets stand at position `i`.
pub open spec fn closes_link(chars: Seq<char>, i: int) -> bool {
    i + 1 < chars.len() && chars[i] == ']' && chars[i + 1] == ']'
}

/// The text of a link without its alias: what stands before the first
/// vertical bar, or all of it where there is none.
pub open spec fn link_target(text: Seq<char>) -> Seq<char>
    decreases text.len(),
{
    if text.len() == 0 || text[0] == '|' {
        Seq::empty()
    } else {
        seq![text[0]] + link_target(text.drop_first())
    }
}

/// A text that holds no vertical bar before position `k` has its first `k`
/// characters in its target.
proof fn lemma_target_prefix(text: Seq<char>, k: int)
    requires
        0 <= k <= text.len(),
        forall|j: int| 0 <= j < k ==> text[j] != '|',
    ensures
        link_target(text) == text.subrange(0, k) + link_target(text.subrange(k, text.len() as int)),
    decreases k,
{
    if k == 0 {
        assert(text.subrange(0, text.len() as int) =~= text);
        assert(text.subrange(0, 0) + link_target(text) =~= link_target(text));
    } else {
        let rest = text.drop_first();
        assert forall|j: int| 0 <= j < k - 1 implies rest[j] != '|' by {
            assert(rest[j] == text[j + 1]);
        }
        lemma_target_prefix(rest, k - 1);
        assert(rest.subrange(k - 1, rest.len() as int) =~= text.subrange(k, text.len() as int));
        assert(seq![text[0]] + rest.subrange(0, k - 1) =~= text.subrange(0, k));
        assert(link_target(text) =~= text.subrange(0, k) + link_target(
            text.subrange(k, text.len() as int),
        ));
    }
}

/// The scan after the character, or the pair of brackets, at its position.
///
/// Opening brackets open a link, also inside a link. Closing brackets close
/// it; the text between the two is a link where it is not empty, and its
/// target is kept.
pub open spec fn link_step(chars: Seq<char>, scan: LinkScan) -> LinkScan {
    let i = scan.position;
    if opens_link(chars, i) {
        LinkScan { position: i + 2, in_link: true, start: i + 2, links: scan.links }
    } else if closes_link(chars, i) {
        LinkScan {
            position: i + 2,
            in_link: false,
            start: i + 2,
            links: if scan.in_link && scan.start < i {
                scan.links.push(link_target(chars.subrange(scan.start, i)))
            } else {
                scan.links
            },
        }
    } else {
        LinkScan { position: i + 1, ..scan }
    }
}

/// The targets that the scan holds once it has read the whole note.
pub open spec fn links_from(chars: Seq<char>, scan: LinkScan) -> Seq<Seq<char>>
    decreases chars.len() - scan.position,
{
    if 0 <= scan.position < chars.len() {
        links_from(chars, link_step(chars, scan))
    } else {
        scan.links
    }
}

/// The targets of the links `[[target]]` and `[[target|alias]]` in a note,
/// in the order of the links.
pub open spec fn links_of(chars: Seq<char>) -> Seq<Seq<char>> {
    links_from(chars, LinkScan { position: 0, in_link: false, start: 0, links: Seq::empty() })
}

/// The position of the first vertical bar from `from` up to `to`, or `to`
/// where there is none.
pub fn target_end(chars: &Vec<char>, from: usize, to: usize) -> (end: usize)
    requires
        from <= to <= chars.len(),
    ensures
        from <= end <= to,
        chars@.subrange(from as int, end as int) == link_target(chars@.subrange(from as int, to as int)),
{
    let ghost text = chars@.subrange(from as int, to as int);
    let mut end: usize = from;
    while end < to && chars[end] != '|'
        invariant
            from <= end <= to <= chars.len(),
            text == chars@.subrange(from as int, to as int),
            forall|j: int| 0 <= j < end - from ==> text[j] != '|',
        decreases to - end,
    {
        assert(text[end - from] == chars[end as int]);
        end += 1;
    }
    proof {
        let k = end - from;
        lemma_target_prefix(text, k);
        let rest = text.subrange(k, text.len() as int);
        if end < to {
            assert(rest[0] == chars[end as int]);
        }
        assert(link_target(rest) =~= Seq::<char>::empty());
        assert(chars@.subrange(from as int, end as int) =~= text.subrange(0, k));
        assert(text.subrange(0, k) + Seq::<char>::empty() =~= text.subrange(0, k));
    }
    end
}

/// The targets of the links in a note, in the order of the links.
pub fn extract_links(content: &str) -> (links: Vec<String>)
    ensures
        text_views(links@) == links_of(content@),
{
    let chars = to_chars(content);
    let mut links: Vec<String> = Vec::new();
    let mut in_link: bool = false;
    let mut start: usize = 0;
    let mut i: usize = 0;
    let ghost mut scan = LinkScan { position: 0, in_link: false, start: 0, links: Seq::empty() };
    assert(text_views(links@) =~= Seq::<Seq<char>>::empty());
    while i < chars.len()
        invariant
            chars@ == content@,
            start <= i <= chars.len(),
            scan.position == i,
            scan.in_link == in_link,
            scan.start == start,
            scan.links == text_views(links@),
            links_from(chars@, scan) == links_of(chars@),
        decreases chars.len() - i,
    {
        let ghost before = scan;
        proof {
            scan = link_step(chars@, before);
        }
        if i + 1 < chars.len() && chars[i] == '[' && chars[i + 1] == '[' {
            in_link = true;
            start = i + 2;
            i += 2;
        } else if i + 1 < chars.len() && chars[i] == ']' && chars[i + 1] == ']' {
            if in_link && start < i {
                let end = target_end(&chars, start, i);
                let target = content.substring_char(start, end).to_owned();
                proof {
                    lemma_text_views_push(links@, target);
                }
                links.push(target);
            }
            in_link = false;
            start = i + 2;
            i += 2;
        } else {
            i += 1;
        }
    }
    links
}

/// A character that a tag may end in: a letter, a digit, a hyphen or an
/// underscore.
pub open spec fn is_tag_char(c: char) -> bool {
    is_alphanumeric_char(c) || c == '-' || c == '_'
}

/// The length of a word without the characters at its end that no tag may
/// end in.
pub open spec fn trimmed_len(word: Seq<char>) -> int
    decreases word.len(),
{
    if word.len() == 0 {
        0
    } else if is_tag_char(word.last()) {
        word.len() as int
    } else {
        trimmed_len(word.drop_last())
    }
}

/// The tag that a word is: a word that starts with a hash sign, without what
/// follows its last tag character, where more than the hash sign is left.
pub open spec fn tag_of(word: Seq<char>) -> Option<Seq<char>> {
    if word.len() >= 2 && word[0] == '#' && trimmed_len(word) >= 2 {
        Some(word.subrange(0, trimmed_len(word)))
    } else {
        None
    }
}

/// The first position from `from` on at which white space stands, or the
/// length of the text where none stands.
pub open spec fn word_end(chars: Seq<char>, from: int) -> int
    decreases chars.len() - from,
{
    if from < 0 || from >= chars.len() || is_whitespace_char(chars[from]) {
        if from < 0 || from >= chars.len() {
            chars.len() as int
        } else {
            from
        }
    } else {
        word_end(chars, from + 1)
    }
}

/// A word ends after its start and within the text.
proof fn lemma_word_end(chars: Seq<char>, from: int)
    requires
        0 <= from <= chars.len(),
    ensures
        from <= word_end(chars, from) <= chars.len(),
        from < chars.len() && !is_whitespace_char(chars[from]) ==> from < word_end(chars, from),
    decreases chars.len() - from,
{
    if from < chars.len() && !is_whitespace_char(chars[from]) {
        lemma_word_end(chars, from + 1);
    }
}

/// The tags of the words from position `i` on, after those found before, in
/// the order of the words. White space parts the words.
pub open spec fn tags_from(chars: Seq<char>, i: int, found: Seq<Seq<char>>) -> Seq<Seq<char>>
    decreases chars.len() - i,
{
    if i < 0 || i >= chars.len() {
        found
    } else if is_whitespace_char(chars[i]) {
        tags_from(chars, i + 1, found)
    } else {
        let end = word_end(chars, i);
        if i < end <= chars.len() {
            tags_from(
                chars,
                end,
                match tag_of(chars.subrange(i, end)) {
                    Some(tag) => found.push(tag),
                    None => found,
                },
            )
        } else {
            found
        }
    }
}

/// The tags of the words of a note, in the order of the words; a tag that
/// occurs twice stands twice.
pub open spec fn tags_of(chars: Seq<char>) -> Seq<Seq<char>> {
    tags_from(chars, 0, Seq::empty())
}

/// Each text of the list comes before the next one in the order of strings.
pub open spec fn is_ascending(texts: Seq<Seq<char>>) -> bool {
    forall|i: int| 0 <= i && i + 1 < texts.len() ==> text_before(#[trigger] texts[i], texts[i + 1])
}

/// `sorted` holds each text of `found` once, in the order of strings.
pub open spec fn is_sorted_set_of(sorted: Seq<Seq<char>>, found: Seq<Seq<char>>) -> bool {
    &&& is_ascending(sorted)
    &&& forall|text: Seq<char>| sorted.contains(text) <==> found.contains(text)
}

/// Enters a text into an ascending list at its place, unless the list holds
/// it.
pub fn insert_sorted(list: &mut Vec<String>, item: String)
    requires
        is_ascending(text_views(old(list)@)),
    ensures
        is_ascending(text_views(final(list)@)),
        forall|text: Seq<char>|
            text_views(final(list)@).contains(text) <==> (text_views(old(list)@).contains(text) || text
                == item@),
{
    let ghost before = text_views(list@);
    let mut at: usize = 0;
    let mut found: bool = false;
    let mut placed: bool = false;
    while at < list.len() && !found && !placed
        invariant
            at <= list.len(),
            list@ == old(list)@,
            before == text_views(list@),
            !(found && placed),
            forall|j: int| 0 <= j < at - if found || placed { 1int } else { 0int } ==> text_before(
                #[trigger] before[j],
                item@,
            ),
            found ==> 0 < at && before[at - 1] == item@,
            placed ==> 0 < at && text_before(item@, before[at - 1]),
        decreases list.len() - at + if found || placed { 0int } else { 1int },
    {
        match text_order(list[at].as_str(), item.as_str()) {
            TextOrder::Before => {},
            TextOrder::Same => {
                found = true;
            },
            TextOrder::After => {
                placed = true;
            },
        }
        at += 1;
    }
    if found {
        proof {
            assert forall|text: Seq<char>| before.contains(text) <==> (before.contains(text) || text
                == item@) by {
                if text == item@ {
                    assert(before[at - 1] == text);
                }
            }
        }
        return ;
    }
    let place: usize = if placed {
        at - 1
    } else {
        at
    };
    let ghost name = item@;
    list.insert(place, item);
    proof {
        assert(text_views(list@) =~= before.insert(place as int, name));
        lemma_insert_ascending(before, place as int, name);
    }
}

/// A text entered into an ascending list behind all that come before it and
/// in front of one that comes after it leaves the list ascending, and adds
/// itself and nothing else.
proof fn lemma_insert_ascending(before: Seq<Seq<char>>, place: int, name: Seq<char>)
    requires
        is_ascending(before),
        0 <= place <= before.len(),
        forall|j: int| 0 <= j < place ==> text_before(#[trigger] before[j], name),
        place < before.len() ==> text_before(name, before[place]),
    ensures
        is_ascending(before.insert(place, name)),
        forall|text: Seq<char>|
            before.insert(place, name).contains(text) <==> (before.contains(text) || text == name),
{
    let after = before.insert(place, name);
    assert forall|i: int| 0 <= i && i + 1 < after.len() implies text_before(
        #[trigger] after[i],
        after[i + 1],
    ) by {
        if i + 1 < place {
            assert(after[i] == before[i] && after[i + 1] == before[i + 1]);
        } else if i + 1 == place {
            assert(after[i] == before[i]);
        } else if i == place {
            assert(after[i + 1] == before[i]);
        } else {
            assert(after[i] == before[i - 1] && after[i + 1] == before[i - 1 + 1]);
            assert(text_before(before[i - 1], before[i - 1 + 1]));
        }
    }
    assert forall|text: Seq<char>| after.contains(text) <==> (before.contains(text) || text
        == name) by {
        if after.contains(text) {
            let j = choose|j: int| 0 <= j < after.len() && after[j] == text;
            if j < place {
                assert(before[j] == text);
            } else if j > place {
                assert(before[j - 1] == text);
            }
        }
        if before.contains(text) {
            let j = choose|j: int| 0 <= j < before.len() && before[j] == text;
            if j < place {
                assert(after[j] == text);
            } else {
                assert(after[j + 1] == text);
            }
        }
        if text == name {
            assert(after[place] == text);
        }
    }
}

/// The length of the word from `from` to `to` without the characters at its
/// end that no tag may end in.
fn trim_tag_end(chars: &Vec<char>, from: usize, to: usize) -> (len: usize)
    requires
        from <= to <= chars.len(),
    ensures
        len == trimmed_len(chars@.subrange(from as int, to as int)),
        len <= to - from,
{
    let mut end: usize = to;
    while end > from && !(chars[end - 1].is_alphanumeric() || chars[end - 1] == '-' || chars[end - 1]
        == '_')
        invariant
            from <= end <= to <= chars.len(),
            trimmed_len(chars@.subrange(from as int, end as int)) == trimmed_len(
                chars@.subrange(from as int, to as int),
            ),
        decreases end - from,
    {
        proof {
            let word = chars@.subrange(from as int, end as int);
            assert(word.last() == chars[end - 1]);
            assert(word.drop_last() =~= chars@.subrange(from as int, end - 1));
        }
        end -= 1;
    }
    proof {
        let word = chars@.subrange(from as int, end as int);
        if end > from {
            assert(word.last() == chars[end - 1]);
        }
    }
    end - from
}

/// The end of the word that starts at `from`.
fn find_word_end(chars: &Vec<char>, from: usize) -> (end: usize)
    requires
        from <= chars.len(),
    ensures
        end == word_end(chars@, from as int),
        from <= end <= chars.len(),
{
    proof {
        lemma_word_end(chars@, from as int);
    }
    let mut end: usize = from;
    while end < chars.len() && !chars[end].is_whitespace()
        invariant
            from <= end <= chars.len(),
            word_end(chars@, end as int) == word_end(chars@, from as int),
        decreases chars.len() - end,
    {
        end += 1;
    }
    end
}

/// The tags of a note: each tag once, in the order of strings.
///
/// A tag is a word that starts with a hash sign; what follows its last
/// letter, digit, hyphen or underscore does not belong to it.
pub fn extract_tags(content: &str) -> (tags: Vec<String>)
    ensures
        is_sorted_set_of(text_views(tags@), tags_of(content@)),
{
    let chars = to_chars(content);
    let mut tags: Vec<String> = Vec::new();
    let mut i: usize = 0;
    let ghost mut found: Seq<Seq<char>> = Seq::empty();
    while i < chars.len()
        invariant
            i <= chars.len(),
            chars@ == content@,
            is_sorted_set_of(text_views(tags@), found),
            tags_from(chars@, i as int, found) == tags_of(chars@),
        decreases chars.len() - i,
    {
        if chars[i].is_whitespace() {
            i += 1;
        } else {
            let end = find_word_end(&chars, i);
            proof {
                lemma_word_end(chars@, i as int);
            }
            let ghost word = chars@.subrange(i as int, end as int);
            if end - i >= 2 && chars[i] == '#' {
                let len = trim_tag_end(&chars, i, end);
                if len >= 2 {
                    let tag = content.substring_char(i, i + len).to_owned();
                    let ghost before = found;
                    let ghost listed = text_views(tags@);
                    proof {
                        assert(word[0] == chars[i as int]);
                        assert(tag@ =~= word.subrange(0, len as int));
                        found = found.push(tag@);
                    }
                    insert_sorted(&mut tags, tag);
                    proof {
                        assert forall|text: Seq<char>| text_views(tags@).contains(text) <==> found.contains(
                            text,
                        ) by {
                            if before.contains(text) {
                                let j = choose|j: int| 0 <= j < before.len() && before[j] == text;
                                assert(found[j] == text);
                            }
                            if text == found[found.len() - 1] {
                                assert(found.contains(text));
                            }
                            if found.contains(text) {
                                let j = choose|j: int| 0 <= j < found.len() && found[j] == text;
                                if j < before.len() {
                                    assert(before[j] == text);
                                }
                            }
                        }
                    }
                }
            }
            proof {
                assert(word[0] == chars[i as int]);
            }
            i = end;
        }
    }
    tags
}

/// The most bytes of a paragraph that a summary keeps.
pub const SUMMARY_MAX_BYTES: usize = 200;

/// The line of three hyphens that opens and closes the front matter.
pub open spec fn front_matter_fence() -> Seq<char> {
    seq!['-', '-', '-']
}

/// The two line feeds that end a paragraph.
pub open spec fn paragraph_break() -> Seq<char> {
    seq!['\n', '\n']
}

/// The part of a note that its summary is taken from, as a pair of
/// positions.
///
/// A note that starts with three hyphens has front matter: the part is what
/// stands between the second and the third run of three hyphens, or after
/// the second where there is no third; without a second run it is the whole
/// note. White space at the two ends of the part is left out.
pub open spec fn summary_body(chars: Seq<char>) -> (int, int) {
    let len = chars.len() as int;
    if matches_at(chars, front_matter_fence(), 0) {
        let second = first_match(chars, front_matter_fence(), 3, len);
        if second < len {
            trimmed(chars, second + 3, first_match(chars, front_matter_fence(), second + 3, len))
        } else {
            trimmed(chars, 0, len)
        }
    } else {
        trimmed(chars, 0, len)
    }
}

/// The paragraph from `from` to `to` can be a summary: it is not blank and
/// is no heading.
pub open spec fn is_summary_paragraph(chars: Seq<char>, from: int, to: int) -> bool {
    !is_blank(chars.subrange(from, to)) && chars[from] != '#'
}

/// The first paragraph between `from` and `to` that can be a summary.
pub open spec fn summary_paragraph(chars: Seq<char>, from: int, to: int) -> Option<(int, int)>
    decreases to - from,
{
    let end = first_match(chars, paragraph_break(), from, to);
    if 0 <= from <= end <= to && is_summary_paragraph(chars, from, end) {
        Some((from, end))
    } else if 0 <= from <= end && end + 2 <= to {
        summary_paragraph(chars, end + 2, to)
    } else {
        None
    }
}

/// The last place at or before byte `at` where a character starts.
pub open spec fn floor_boundary(bytes: Seq<u8>, at: int) -> int
    decreases at,
{
    if at <= 0 {
        0
    } else if is_char_boundary(bytes, at) {
        at
    } else {
        floor_boundary(bytes, at - 1)
    }
}

/// A paragraph as a summary: a paragraph of more than 200 bytes is cut at
/// the last character that ends within them, and three dots are put behind
/// it.
pub open spec fn shortened(paragraph: Seq<char>) -> Seq<char> {
    let bytes = encode_utf8(paragraph);
    if bytes.len() > SUMMARY_MAX_BYTES {
        decode_utf8(bytes.subrange(0, floor_boundary(bytes, SUMMARY_MAX_BYTES as int))) + seq![
            '.',
            '.',
            '.',
        ]
    } else {
        paragraph
    }
}

/// The summary of a note: its first paragraph that is not blank and no
/// heading, shortened; the empty text where it has none.
pub open spec fn summary_of(chars: Seq<char>) -> Seq<char> {
    let body = summary_body(chars);
    match summary_paragraph(chars, body.0, body.1) {
        Some((from, to)) => shortened(chars.subrange(from, to)),
        None => Seq::empty(),
    }
}

/// The part of a note that its summary is taken from.
fn find_summary_body(chars: &Vec<char>) -> (body: (usize, usize))
    ensures
        (body.0 as int, body.1 as int) == summary_body(chars@),
        body.0 <= body.1 <= chars.len(),
{
    let fence: Vec<char> = vec!['-', '-', '-'];
    assert(fence@ =~= front_matter_fence());
    let len = chars.len();
    if len >= 3 && chars[0] == '-' && chars[1] == '-' && chars[2] == '-' {
        assert(chars@.subrange(0, 3) =~= front_matter_fence());
        let second = find_match(chars, &fence, 3, len);
        proof {
            lemma_first_match(chars@, fence@, 3, len as int);
        }
        if second < len {
            let third = find_match(chars, &fence, second + 3, len);
            trim_range(chars, second + 3, third)
        } else {
            trim_range(chars, 0, len)
        }
    } else {
        proof {
            if matches_at(chars@, front_matter_fence(), 0) {
                let part = chars@.subrange(0, 3);
                assert(part[0] == '-' && part[1] == '-' && part[2] == '-');
                assert(part[0] == chars[0] && part[1] == chars[1] && part[2] == chars[2]);
            }
        }
        trim_range(chars, 0, len)
    }
}

/// The first paragraph between `from` and `to` that can be a summary.
fn find_summary_paragraph(chars: &Vec<char>, from: usize, to: usize) -> (found: Option<(usize, usize)>)
    requires
        from <= to <= chars.len(),
    ensures
        match summary_paragraph(chars@, from as int, to as int) {
            Some((a, b)) => found matches Some((x, y)) && x == a && y == b && from <= x < y <= to,
            None => found is None,
        },
{
    let gap: Vec<char> = vec!['\n', '\n'];
    assert(gap@ =~= paragraph_break());
    let mut start: usize = from;
    loop
        invariant
            from <= start <= to <= chars.len(),
            gap@ == paragraph_break(),
            summary_paragraph(chars@, start as int, to as int) == summary_paragraph(
                chars@,
                from as int,
                to as int,
            ),
        decreases to - start,
    {
        let end = find_match(chars, &gap, start, to);
        proof {
            lemma_first_match(chars@, gap@, start as int, to as int);
        }
        if !is_blank_range(chars, start, end) {
            assert(start < end) by {
                if start == end {
                    assert(chars@.subrange(start as int, end as int) =~= Seq::<char>::empty());
                }
            }
            if chars[start] != '#' {
                return Some((start, end));
            }
        }
        if end < to {
            start = end + 2;
        } else {
            return None;
        }
    }
}

/// The summary of a note: its first paragraph that is not blank and no
/// heading, shortened to 200 bytes where it is longer.
pub fn extract_summary(content: &str) -> (summary: String)
    ensures
        summary@ == summary_of(content@),
{
    let chars = to_chars(content);
    let body = find_summary_body(&chars);
    match find_summary_paragraph(&chars, body.0, body.1) {
        None => String::new(),
        Some((from, to)) => {
            let paragraph = content.substring_char(from, to);
            let bytes_len = paragraph.as_bytes().len();
            if bytes_len > SUMMARY_MAX_BYTES {
                let ghost bytes = paragraph.spec_bytes();
                proof {
                    encode_utf8_valid_utf8(paragraph@);
                    is_char_boundary_start_end_of_seq(bytes);
                }
                let mut end: usize = SUMMARY_MAX_BYTES;
                while end > 0 && !paragraph.is_char_boundary(end)
                    invariant
                        end <= SUMMARY_MAX_BYTES < bytes.len(),
                        bytes == paragraph.spec_bytes(),
                        floor_boundary(bytes, end as int) == floor_boundary(
                            bytes,
                            SUMMARY_MAX_BYTES as int,
                        ),
                    decreases end,
                {
                    end -= 1;
                }
                let kept = slice(paragraph, 0, end);
                proof {
                    encode_utf8_decode_utf8(kept@);
                    reveal_strlit("...");
                    assert("..."@ =~= seq!['.', '.', '.']);
                }
                concat(kept, "...")
            } else {
                paragraph.to_owned()
            }
        },
    }
}

/// The index of the chunk that follows `count` others, as it fits into a
/// `u32`.
pub open spec fn index_after(count: nat) -> u32 {
    (count % 0x1_0000_0000) as u32
}

/// Where the chunking of a note stands.
pub struct NoteScan {
    /// The chunks cut so far.
    pub chunks: Seq<Seq<u8>>,
    /// The bytes of the chunk in the making.
    pub current: Seq<u8>,
}

/// The scan after a line.
///
/// A heading line cuts the chunk in the making unless that is blank. The
/// line and a line feed go into the chunk in the making. Where that has then
/// reached the target, it is split after the first paragraph break in its
/// second half, if there is one.
pub open spec fn note_step(scan: NoteScan, line: Seq<u8>) -> NoteScan {
    let opened = if line.len() > 0 && line[0] == HASH_SIGN && !is_blank_bytes(scan.current) {
        NoteScan { chunks: scan.chunks.push(scan.current), current: Seq::empty() }
    } else {
        scan
    };
    let current = opened.current + line + seq![LINE_FEED];
    match paragraph_boundary(current) {
        Some(split) => if current.len() >= NOTE_CHUNK_TARGET {
            NoteScan {
                chunks: opened.chunks.push(current.subrange(0, split)),
                current: current.subrange(split, current.len() as int),
            }
        } else {
            NoteScan { current, ..opened }
        },
        None => NoteScan { current, ..opened },
    }
}

/// The scan after the lines from the one that starts at `start` on.
pub open spec fn note_scan_from(bytes: Seq<u8>, start: int, scan: NoteScan) -> NoteScan
    decreases bytes.len() - start,
{
    let next = next_line_start(bytes, start);
    if 0 <= start < next <= bytes.len() {
        note_scan_from(
            bytes,
            next,
            note_step(scan, bytes.subrange(start, line_content_end(bytes, start))),
        )
    } else {
        scan
    }
}

/// The chunks of a note: cut at its headings, and at paragraph breaks where
/// a chunk reaches the target. What is left at the end is a chunk unless it
/// is blank.
pub open spec fn note_chunks(bytes: Seq<u8>) -> Seq<Seq<u8>> {
    let scan = note_scan_from(bytes, 0, NoteScan { chunks: Seq::empty(), current: Seq::empty() });
    if is_blank_bytes(scan.current) {
        scan.chunks
    } else {
        scan.chunks.push(scan.current)
    }
}

/// The chunks are those of the model, each with its index.
pub open spec fn are_indexed_chunks(chunks: Seq<(String, u32)>, model: Seq<Seq<u8>>) -> bool {
    &&& chunks.len() == model.len()
    &&& forall|i: int|
        0 <= i < chunks.len() ==> encode_utf8((#[trigger] chunks[i]).0@) == model[i] && chunks[i].1
            == index_after(i as nat)
}

/// Puts a chunk, with its index, at the end of the chunks.
fn push_indexed(chunks: &mut Vec<(String, u32)>, content: String)
    ensures
        final(chunks)@ == old(chunks)@.push((content, index_after(old(chunks)@.len()))),
{
    let index: u32 = (chunks.len() as u64 % 0x1_0000_0000) as u32;
    chunks.push((content, index));
}

/// The chunks with one more are those of the model with one more.
proof fn lemma_indexed_push(chunks: Seq<(String, u32)>, model: Seq<Seq<u8>>, content: String)
    requires
        are_indexed_chunks(chunks, model),
    ensures
        are_indexed_chunks(
            chunks.push((content, index_after(chunks.len()))),
            model.push(encode_utf8(content@)),
        ),
{
}

/// Cuts a note into chunks for the vector store, each with its index.
pub fn chunk_note_content(content: &str) -> (chunks: Vec<(String, u32)>)
    ensures
        are_indexed_chunks(chunks@, note_chunks(content.spec_bytes())),
{
    let bytes = content.as_bytes();
    let ghost all = content.spec_bytes();
    let mut chunks: Vec<(String, u32)> = Vec::new();
    let mut current = String::new();
    let mut line_start: usize = 0;
    let ghost start = NoteScan { chunks: Seq::empty(), current: Seq::empty() };
    let ghost mut scan = start;
    proof {
        encode_utf8_valid_utf8(content@);
        is_char_boundary_start_end_of_seq(all);
        assert(encode_utf8(current@) =~= Seq::<u8>::empty());
    }
    while line_start < bytes.len()
        invariant
            all == content.spec_bytes(),
            bytes@ == all,
            line_start <= all.len(),
            is_char_boundary(all, line_start as int),
            are_indexed_chunks(chunks@, scan.chunks),
            scan.current == encode_utf8(current@),
            note_scan_from(all, line_start as int, scan) == note_scan_from(all, 0, start),
        decreases all.len() - line_start,
    {
        let read = read_line(content, line_start);
        let line = slice(content, line_start, read.0);
        let ghost line_bytes = all.subrange(line_start as int, read.0 as int);
        let ghost before = scan;
        proof {
            encode_utf8_decode_utf8(current@);
            if read.0 > line_start {
                assert(line_bytes[0] == all[line_start as int]);
            }
        }
        if read.0 > line_start && bytes[line_start] == HASH_SIGN && !is_blank_text(current.as_str()) {
            proof {
                lemma_indexed_push(chunks@, scan.chunks, current);
            }
            push_indexed(&mut chunks, current);
            current = String::new();
            proof {
                assert(encode_utf8(current@) =~= Seq::<u8>::empty());
            }
        }
        push_line(&mut current, line);
        let held: usize = current.as_str().as_bytes().len();
        let place = find_paragraph_boundary(current.as_str());
        if held >= NOTE_CHUNK_TARGET {
            match place {
                Some(split) => {
                    proof {
                        encode_utf8_valid_utf8(current@);
                        is_char_boundary_start_end_of_seq(encode_utf8(current@));
                    }
                    let first = slice(current.as_str(), 0, split).to_owned();
                    let rest = slice(current.as_str(), split, held).to_owned();
                    proof {
                        lemma_indexed_push(chunks@, chunks_before_split(before, line_bytes), first);
                    }
                    push_indexed(&mut chunks, first);
                    current = rest;
                },
                None => {},
            }
        }
        proof {
            scan = note_step(before, line_bytes);
        }
        line_start = read.1;
    }
    proof {
        encode_utf8_decode_utf8(current@);
    }
    if !is_blank_text(current.as_str()) {
        proof {
            lemma_indexed_push(chunks@, scan.chunks, current);
        }
        push_indexed(&mut chunks, current);
    }
    chunks
}

/// The chunks of a scan once a line has opened what it opens, before the
/// chunk in the making is split.
spec fn chunks_before_split(scan: NoteScan, line: Seq<u8>) -> Seq<Seq<u8>> {
    if line.len() > 0 && line[0] == HASH_SIGN && !is_blank_bytes(scan.current) {
        scan.chunks.push(scan.current)
    } else {
        scan.chunks
    }
}

/// One record of a note in the vector store.
#[derive(Debug, Clone)]
pub struct NoteVector {
    /// The id of the record.
    pub id: String,
    /// The text that is embedded.
    pub document: String,
    /// The tokens of that text.
    pub token_count: u32,
    /// Where the note was cut: the index of the chunk, and how many chunks
    /// the note has.
    pub chunk: Option<(u32, u32)>,
}

/// What the id of every record of a note begins with.
pub open spec fn note_id_prefix() -> Seq<char> {
    seq!['o', 'b', 's', 'i', 'd', 'i', 'a', 'n', '_']
}

/// What stands in the id of a chunk between the note and the index.
pub open spec fn chunk_infix() -> Seq<char> {
    seq!['_', 'c', 'h', 'u', 'n', 'k']
}

/// The id of the record of a whole note: the prefix and the path, with an
/// underscore for each slash.
pub open spec fn note_id(path: Seq<char>) -> Seq<char> {
    note_id_prefix() + replaced(path, '/', '_')
}

/// The id of the record of one chunk of a note.
pub open spec fn note_chunk_id(path: Seq<char>, index: u32) -> Seq<char> {
    note_id(path) + chunk_infix() + decimal(index as nat)
}

/// The records are the one record of a note that was not cut.
pub open spec fn is_whole_note(
    vectors: Seq<NoteVector>,
    path: Seq<char>,
    content: Seq<char>,
    token_count: u32,
) -> bool {
    &&& vectors.len() == 1
    &&& vectors[0].id@ == note_id(path)
    &&& vectors[0].document@ == content
    &&& vectors[0].token_count == token_count
    &&& vectors[0].chunk is None
}

/// The record `i` is that of the chunk `i` of the note.
pub open spec fn is_chunk_record(
    vector: NoteVector,
    path: Seq<char>,
    model: Seq<Seq<u8>>,
    i: int,
) -> bool {
    &&& vector.id@ == note_chunk_id(path, index_after(i as nat))
    &&& encode_utf8(vector.document@) == model[i]
    &&& vector.token_count == token_estimate(model[i].len())
    &&& vector.chunk == Some((index_after(i as nat), index_after(model.len())))
}

/// The records are those of the chunks of a note, in their order.
pub open spec fn are_note_chunks(
    vectors: Seq<NoteVector>,
    path: Seq<char>,
    model: Seq<Seq<u8>>,
) -> bool {
    &&& vectors.len() == model.len()
    &&& forall|i: int| 0 <= i < vectors.len() ==> is_chunk_record(#[trigger] vectors[i], path, model, i)
}

/// The id of the record of a whole note.
fn whole_note_id(path: &str) -> (id: String)
    ensures
        id@ == note_id(path@),
{
    proof {
        reveal_strlit("obsidian_");
        assert("obsidian_"@ =~= note_id_prefix());
    }
    let flat = replace_char(path, '/', '_');
    concat("obsidian_", flat.as_str())
}

/// The records under which a note goes into the vector store. A note of up
/// to [`NOTE_CHUNK_THRESHOLD`] tokens gives one record of the whole text; a
/// larger one gives one record for each of its chunks.
pub fn note_vectors(path: &str, content: &str, token_count: u32) -> (vectors: Vec<NoteVector>)
    ensures
        token_count <= NOTE_CHUNK_THRESHOLD ==> is_whole_note(
            vectors@,
            path@,
            content@,
            token_count,
        ),
        token_count > NOTE_CHUNK_THRESHOLD ==> are_note_chunks(
            vectors@,
            path@,
            note_chunks(content.spec_bytes()),
        ),
{
    let mut vectors: Vec<NoteVector> = Vec::new();
    if token_count <= NOTE_CHUNK_THRESHOLD {
        vectors.push(
            NoteVector {
                id: whole_note_id(path),
                document: content.to_owned(),
                token_count,
                chunk: None,
            },
        );
        return vectors;
    }
    let chunks = chunk_note_content(content);
    let ghost model = note_chunks(content.spec_bytes());
    let total: u32 = (chunks.len() as u64 % 0x1_0000_0000) as u32;
    let mut i: usize = 0;
    proof {
        reveal_strlit("_chunk");
        assert("_chunk"@ =~= chunk_infix());
    }
    while i < chunks.len()
        invariant
            i <= chunks.len(),
            are_indexed_chunks(chunks@, model),
            total == index_after(model.len()),
            "_chunk"@ == chunk_infix(),
            vectors@.len() == i,
            forall|j: int| 0 <= j < i ==> is_chunk_record(#[trigger] vectors@[j], path@, model, j),
        decreases chunks.len() - i,
    {
        let document = chunks[i].0.clone();
        let index: u32 = chunks[i].1;
        let mut id = whole_note_id(path);
        id.append("_chunk");
        push_decimal(&mut id, index as u64);
        let tokens = estimate_tokens(document.as_str().as_bytes().len());
        vectors.push(NoteVector { id, document, token_count: tokens, chunk: Some((index, total)) });
        i += 1;
    }
    vectors
}

} // verus!
