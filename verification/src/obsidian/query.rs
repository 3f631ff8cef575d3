//! How notes are found.

use vstd::prelude::*;
use vstd::string::{StrSliceExecFns, StringExecFns, StringSliceAdditionalSpecFns};
use vstd::utf8::{
    decode_utf8, encode_utf8, encode_utf8_decode_utf8, encode_utf8_valid_utf8, is_char_boundary,
    is_char_boundary_start_end_of_seq,
};
use crate::obsidian::indexer::floor_boundary;
use crate::text::{
    concat, decimal, estimate_tokens, is_match_at, matches_at, push_decimal, to_chars,
    token_estimate,
};
use crate::utf8_text::slice;

verus! {

/// How a note matched a query.
#[derive(Debug, Clone, Copy, PartialEq, Eq, Structural)]
pub enum MatchType {
    ExactTitle,
    PartialTitle,
    Tag,
    Backlink,
    Content,
}

/// The content of a note, cut to a token budget.
#[derive(Debug, Clone)]
pub struct NoteContent {
    pub path: String,
    pub title: String,
    pub content: String,
    pub token_count: u32,
    pub truncated: bool,
}

/// What a mention asks for.
#[derive(Debug, Clone, Copy, PartialEq, Eq, Structural)]
pub enum MentionKind {
    /// `@#tag`: the notes that carry the tag.
    Tag,
    /// `@notes/path/to/note`, or any mention with a slash: the note at the
    /// path, and by its title where there is none.
    Path,
    /// `@note-title`: the note with the title.
    Title,
}

/// A mention, read.
#[derive(Debug, Clone)]
pub struct Mention {
    /// The mention without the at signs that lead it.
    pub query: String,
    pub kind: MentionKind,
}

/// How many times `c` stands at the start of the text.
pub open spec fn leading_count(chars: Seq<char>, c: char) -> int
    decreases chars.len(),
{
    if chars.len() == 0 || chars[0] != c {
        0
    } else {
        1 + leading_count(chars.drop_first(), c)
    }
}

/// No more characters lead than the text holds.
pub proof fn lemma_leading_count(chars: Seq<char>, c: char)
    ensures
        0 <= leading_count(chars, c) <= chars.len(),
    decreases chars.len(),
{
    if chars.len() > 0 && chars[0] == c {
        lemma_leading_count(chars.drop_first(), c);
    }
}

/// The mention without the at signs that lead it.
pub open spec fn mention_query(mention: Seq<char>) -> Seq<char> {
    mention.subrange(leading_count(mention, '@'), mention.len() as int)
}

/// The prefix of the notes directory.
pub open spec fn notes_prefix() -> Seq<char> {
    seq!['n', 'o', 't', 'e', 's', '/']
}

/// The extension of a note.
pub open spec fn note_extension() -> Seq<char> {
    seq!['.', 'm', 'd']
}

/// What a query asks for: a tag where it starts with a hash sign, a path
/// where it starts with `notes/` or holds a slash, else a title.
pub open spec fn mention_kind(query: Seq<char>) -> MentionKind {
    if query.len() > 0 && query[0] == '#' {
        MentionKind::Tag
    } else if query.contains('/') {
        MentionKind::Path
    } else {
        MentionKind::Title
    }
}

/// The text ends in the extension of a note.
pub open spec fn has_note_extension(text: Seq<char>) -> bool {
    text.len() >= 3 && matches_at(text, note_extension(), text.len() - 3)
}

/// The text as the path of a note: with the extension, unless it has it.
pub open spec fn as_note_path(text: Seq<char>) -> Seq<char> {
    if has_note_extension(text) {
        text
    } else {
        text + note_extension()
    }
}

/// How many characters of the text the prefixes `notes/` at its start take.
pub open spec fn notes_prefix_len(text: Seq<char>) -> int
    decreases text.len(),
{
    if matches_at(text, notes_prefix(), 0) && text.len() >= 6 {
        6 + notes_prefix_len(text.subrange(6, text.len() as int))
    } else {
        0
    }
}

/// The prefixes end within the text.
pub proof fn lemma_notes_prefix_len(text: Seq<char>)
    ensures
        0 <= notes_prefix_len(text) <= text.len(),
    decreases text.len(),
{
    if matches_at(text, notes_prefix(), 0) && text.len() >= 6 {
        lemma_notes_prefix_len(text.subrange(6, text.len() as int));
    }
}

/// The two paths under which the note of a path mention is looked up: the
/// query as a note path, and the same without the prefixes `notes/`.
pub open spec fn mention_paths(query: Seq<char>) -> (Seq<char>, Seq<char>) {
    (
        as_note_path(query),
        as_note_path(query.subrange(notes_prefix_len(query), query.len() as int)),
    )
}

/// Reads a mention: takes the at signs off and tells what it asks for.
pub fn parse_mention(mention: &str) -> (parsed: Mention)
    ensures
        parsed.query@ == mention_query(mention@),
        parsed.kind == mention_kind(mention_query(mention@)),
{
    let chars = to_chars(mention);
    let mut start: usize = 0;
    proof {
        lemma_leading_count(chars@, '@');
        assert(chars@.subrange(0, chars.len() as int) =~= chars@);
    }
    while start < chars.len() && chars[start] == '@'
        invariant
            start <= chars.len(),
            leading_count(chars@, '@') == start + leading_count(
                chars@.subrange(start as int, chars.len() as int),
                '@',
            ),
        decreases chars.len() - start,
    {
        proof {
            let rest = chars@.subrange(start as int, chars.len() as int);
            assert(rest[0] == chars[start as int]);
            assert(rest.drop_first() =~= chars@.subrange(start + 1, chars.len() as int));
        }
        start += 1;
    }
    proof {
        let rest = chars@.subrange(start as int, chars.len() as int);
        if start < chars.len() {
            assert(rest[0] == chars[start as int]);
        }
    }
    let ghost query = chars@.subrange(start as int, chars.len() as int);
    let kind = if start < chars.len() && chars[start] == '#' {
        MentionKind::Tag
    } else {
        let mut at: usize = start;
        while at < chars.len() && chars[at] != '/'
            invariant
                start <= at <= chars.len(),
                forall|j: int| start <= j < at ==> chars[j] != '/',
            decreases chars.len() - at,
        {
            at += 1;
        }
        proof {
            if at < chars.len() {
                assert(query[at - start] == '/');
            } else {
                if query.contains('/') {
                    let j = choose|j: int| 0 <= j < query.len() && query[j] == '/';
                    assert(chars[j + start] == '/');
                }
            }
        }
        if at < chars.len() {
            MentionKind::Path
        } else {
            MentionKind::Title
        }
    };
    Mention { query: mention.substring_char(start, chars.len()).to_owned(), kind }
}

/// A text as the path of a note.
pub fn note_path(text: &str) -> (path: String)
    ensures
        path@ == as_note_path(text@),
{
    let chars = to_chars(text);
    let extension: Vec<char> = vec!['.', 'm', 'd'];
    proof {
        assert(extension@ =~= note_extension());
        reveal_strlit(".md");
        assert(".md"@ =~= note_extension());
    }
    if chars.len() >= 3 && is_match_at(&chars, &extension, chars.len() - 3) {
        text.to_owned()
    } else {
        concat(text, ".md")
    }
}

/// The two paths under which the note of a path mention is looked up.
pub fn path_candidates(query: &str) -> (paths: (String, String))
    ensures
        paths.0@ == mention_paths(query@).0,
        paths.1@ == mention_paths(query@).1,
{
    let chars = to_chars(query);
    let prefix: Vec<char> = vec!['n', 'o', 't', 'e', 's', '/'];
    proof {
        assert(prefix@ =~= notes_prefix());
        lemma_notes_prefix_len(chars@);
        assert(chars@.subrange(0, chars.len() as int) =~= chars@);
    }
    let mut start: usize = 0;
    while chars.len() - start >= 6 && is_match_at(&chars, &prefix, start)
        invariant
            start <= chars.len(),
            prefix@ == notes_prefix(),
            notes_prefix_len(chars@) == start + notes_prefix_len(
                chars@.subrange(start as int, chars.len() as int),
            ),
        decreases chars.len() - start,
    {
        proof {
            let rest = chars@.subrange(start as int, chars.len() as int);
            assert(rest.subrange(0, 6) =~= chars@.subrange(start as int, start + 6));
            assert(rest.subrange(6, rest.len() as int) =~= chars@.subrange(
                start + 6,
                chars.len() as int,
            ));
        }
        start += 6;
    }
    proof {
        let rest = chars@.subrange(start as int, chars.len() as int);
        if rest.len() >= 6 {
            assert(rest.subrange(0, 6) =~= chars@.subrange(start as int, start + 6));
        }
    }
    let stripped = query.substring_char(start, chars.len());
    (note_path(query), note_path(stripped))
}

/// The content of a note as it is handed out under a budget of `max_tokens`
/// tokens, and whether it was cut.
///
/// A note whose estimate is within the budget is handed out whole. Else it is
/// cut at the last character that ends within four bytes for each token of
/// the budget, and a remark says how many tokens are left out.
pub open spec fn fitted_content(content: Seq<char>, max_tokens: u32) -> (Seq<char>, bool) {
    let bytes = encode_utf8(content);
    let tokens = token_estimate(bytes.len());
    if tokens > max_tokens {
        let limit = max_tokens as int * 4;
        if bytes.len() > limit {
            (
                decode_utf8(bytes.subrange(0, floor_boundary(bytes, limit))) + "...\n\n[TRUNCATED: "@
                    + decimal((tokens - max_tokens) as nat) + " tokens remaining]"@,
                true,
            )
        } else {
            (content, true)
        }
    } else {
        (content, false)
    }
}

/// Cuts the content of a note to a budget of tokens.
pub fn fit_content(content: &str, max_tokens: u32) -> (fitted: (String, bool))
    ensures
        fitted.0@ == fitted_content(content@, max_tokens).0,
        fitted.1 == fitted_content(content@, max_tokens).1,
{
    let len: usize = content.as_bytes().len();
    let tokens = estimate_tokens(len);
    if tokens <= max_tokens {
        return (content.to_owned(), false);
    }
    let limit: u64 = max_tokens as u64 * 4;
    if len as u64 <= limit {
        return (content.to_owned(), true);
    }
    let ghost bytes = content.spec_bytes();
    proof {
        encode_utf8_valid_utf8(content@);
        is_char_boundary_start_end_of_seq(bytes);
    }
    let mut end: usize = limit as usize;
    while end > 0 && !content.is_char_boundary(end)
        invariant
            end <= limit < bytes.len(),
            bytes == content.spec_bytes(),
            floor_boundary(bytes, end as int) == floor_boundary(bytes, limit as int),
        decreases end,
    {
        end -= 1;
    }
    let kept = slice(content, 0, end);
    proof {
        encode_utf8_decode_utf8(kept@);
    }
    let mut text = concat(kept, "...\n\n[TRUNCATED: ");
    push_decimal(&mut text, (tokens - max_tokens) as u64);
    text.append(" tokens remaining]");
    (text, true)
}

/// The content of the note at `path` with the title `title`, cut to a budget
/// of tokens, with the estimate of what is handed out.
pub fn note_content(path: &str, title: &str, content: &str, max_tokens: u32) -> (note: NoteContent)
    ensures
        note.path@ == path@,
        note.title@ == title@,
        note.content@ == fitted_content(content@, max_tokens).0,
        note.truncated == fitted_content(content@, max_tokens).1,
        note.token_count == token_estimate(encode_utf8(note.content@).len()),
{
    let fitted = fit_content(content, max_tokens);
    let token_count = estimate_tokens(fitted.0.as_str().as_bytes().len());
    NoteContent {
        path: path.to_owned(),
        title: title.to_owned(),
        content: fitted.0,
        token_count,
        truncated: fitted.1,
    }
}

} // verus!
