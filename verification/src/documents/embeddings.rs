//! Embeddings of chunks.

use vstd::prelude::*;
use vstd::string::StrSliceExecFns;
use crate::chars::{is_alphanumeric_char, is_whitespace_char, lowercase_of};
use crate::context::tokens::{content_hash, hash_content};
use crate::text::{concat, to_chars};

verus! {

/// The number of dimensions of an embedding.
pub const EMBEDDING_DIM: usize = 256;

/// An error of the embedding model.
#[derive(Debug, Clone)]
pub enum EmbeddingError {
    NotInitialized,
    GenerationFailed(String),
}

impl EmbeddingError {
    /// The text of the error.
    pub open spec fn message_of(&self) -> Seq<char> {
        match *self {
            EmbeddingError::NotInitialized => "Embedding model not initialized"@,
            EmbeddingError::GenerationFailed(detail) => "Embedding generation failed: "@ + detail@,
        }
    }

    /// The text of the error.
    pub fn message(&self) -> (text: String)
        ensures
            text@ == self.message_of(),
    {
        match self {
            EmbeddingError::NotInitialized => "Embedding model not initialized".to_owned(),
            EmbeddingError::GenerationFailed(detail) => concat(
                "Embedding generation failed: ",
                detail.as_str(),
            ),
        }
    }
}

/// The bucket of a token: its hash, as the default hasher gives it, within
/// the dimensions of an embedding.
pub open spec fn bucket_of(token: Seq<char>) -> int {
    content_hash(token) as int % (EMBEDDING_DIM as int)
}

/// The bucket of a token.
pub fn hash_token(token: &str) -> (bucket: usize)
    ensures
        bucket == bucket_of(token@),
        bucket < EMBEDDING_DIM,
{
    let hash = hash_content(token);
    (hash % (EMBEDDING_DIM as u64)) as usize
}

/// The first position from `from` up to `to` at which a letter or a digit
/// stands, or `to`.
pub open spec fn skip_marks(chars: Seq<char>, from: int, to: int) -> int
    decreases to - from,
{
    if from < 0 || from >= to || to > chars.len() || is_alphanumeric_char(chars[from]) {
        if from < 0 || from >= to || to > chars.len() {
            to
        } else {
            from
        }
    } else {
        skip_marks(chars, from + 1, to)
    }
}

/// The position after the last letter or digit before `to`, down to `from`,
/// or `from`.
pub open spec fn skip_marks_back(chars: Seq<char>, from: int, to: int) -> int
    decreases to - from,
{
    if from < 0 || from >= to || to > chars.len() || is_alphanumeric_char(chars[to - 1]) {
        if from < 0 || from >= to || to > chars.len() {
            from
        } else {
            to
        }
    } else {
        skip_marks_back(chars, from, to - 1)
    }
}

/// Skipping what is no letter or digit stays within the part.
proof fn lemma_skip_marks(chars: Seq<char>, from: int, to: int)
    requires
        0 <= from <= to <= chars.len(),
    ensures
        from <= skip_marks(chars, from, to) <= to,
        from <= skip_marks_back(chars, from, to) <= to,
    decreases to - from,
{
    if from < to {
        if !is_alphanumeric_char(chars[from]) {
            lemma_skip_marks(chars, from + 1, to);
        }
        if !is_alphanumeric_char(chars[to - 1]) {
            lemma_skip_marks(chars, from, to - 1);
        }
    }
}

/// The first position from `from` on at which white space stands, or the
/// length of the text.
pub open spec fn token_end(chars: Seq<char>, from: int) -> int
    decreases chars.len() - from,
{
    if from < 0 || from >= chars.len() || is_whitespace_char(chars[from]) {
        if from < 0 || from >= chars.len() {
            chars.len() as int
        } else {
            from
        }
    } else {
        token_end(chars, from + 1)
    }
}

/// A word ends after its start and within the text.
proof fn lemma_token_end(chars: Seq<char>, from: int)
    requires
        0 <= from <= chars.len(),
    ensures
        from <= token_end(chars, from) <= chars.len(),
        from < chars.len() && !is_whitespace_char(chars[from]) ==> from < token_end(chars, from),
    decreases chars.len() - from,
{
    if from < chars.len() && !is_whitespace_char(chars[from]) {
        lemma_token_end(chars, from + 1);
    }
}

/// The counts after the word from `from` to `to` was counted: the word
/// without what is no letter or digit at its two ends is a token, unless
/// nothing is left of it; the token in lower case raises the count of its
/// bucket.
pub open spec fn count_word(chars: Seq<char>, counts: Seq<usize>, from: int, to: int) -> Seq<usize> {
    let start = skip_marks(chars, from, to);
    let end = skip_marks_back(chars, start, to);
    if start < end {
        let bucket = bucket_of(lowercase_of(chars.subrange(start, end)));
        counts.update(bucket, (counts[bucket] + 1) as usize)
    } else {
        counts
    }
}

/// The counts after the words from position `i` on were counted.
pub open spec fn counts_from(chars: Seq<char>, i: int, counts: Seq<usize>) -> Seq<usize>
    decreases chars.len() - i,
{
    if i < 0 || i >= chars.len() {
        counts
    } else if is_whitespace_char(chars[i]) {
        counts_from(chars, i + 1, counts)
    } else {
        let end = token_end(chars, i);
        if i < end <= chars.len() {
            counts_from(chars, end, count_word(chars, counts, i, end))
        } else {
            counts
        }
    }
}

/// How often the tokens of a text fall into each of the 256 buckets.
pub open spec fn term_counts_of(chars: Seq<char>) -> Seq<usize> {
    counts_from(chars, 0, Seq::new(EMBEDDING_DIM as nat, |i: int| 0usize))
}

/// How often the tokens of a text fall into each of the 256 buckets: the
/// term frequencies that an embedding is made of.
///
/// A token is a word between white space, without what is no letter or digit
/// at its two ends, in lower case.
pub fn term_counts(text: &str) -> (counts: Vec<usize>)
    ensures
        counts@ == term_counts_of(text@),
        counts.len() == EMBEDDING_DIM,
{
    let chars = to_chars(text);
    let mut counts: Vec<usize> = Vec::new();
    let mut k: usize = 0;
    while k < EMBEDDING_DIM
        invariant
            k <= EMBEDDING_DIM,
            counts.len() == k,
            forall|j: int| 0 <= j < k ==> counts[j] == 0,
        decreases EMBEDDING_DIM - k,
    {
        counts.push(0);
        k += 1;
    }
    assert(counts@ =~= Seq::new(EMBEDDING_DIM as nat, |i: int| 0usize));
    let mut i: usize = 0;
    while i < chars.len()
        invariant
            i <= chars.len(),
            chars@ == text@,
            counts.len() == EMBEDDING_DIM,
            forall|j: int| 0 <= j < counts.len() ==> counts[j] <= i,
            counts_from(chars@, i as int, counts@) == term_counts_of(chars@),
        decreases chars.len() - i,
    {
        if chars[i].is_whitespace() {
            i += 1;
        } else {
            proof {
                lemma_token_end(chars@, i as int);
            }
            let mut end: usize = i;
            while end < chars.len() && !chars[end].is_whitespace()
                invariant
                    i <= end <= chars.len(),
                    token_end(chars@, end as int) == token_end(chars@, i as int),
                decreases chars.len() - end,
            {
                end += 1;
            }
            proof {
                lemma_skip_marks(chars@, i as int, end as int);
            }
            let mut start: usize = i;
            while start < end && !chars[start].is_alphanumeric()
                invariant
                    i <= start <= end <= chars.len(),
                    skip_marks(chars@, start as int, end as int) == skip_marks(
                        chars@,
                        i as int,
                        end as int,
                    ),
                decreases end - start,
            {
                start += 1;
            }
            proof {
                lemma_skip_marks(chars@, start as int, end as int);
            }
            let mut stop: usize = end;
            while start < stop && !chars[stop - 1].is_alphanumeric()
                invariant
                    start <= stop <= end <= chars.len(),
                    skip_marks_back(chars@, start as int, stop as int) == skip_marks_back(
                        chars@,
                        start as int,
                        end as int,
                    ),
                decreases stop - start,
            {
                stop -= 1;
            }
            if start < stop {
                let token = text.substring_char(start, stop).to_lowercase();
                let bucket = hash_token(token.as_str());
                let raised: usize = counts[bucket] + 1;
                counts.set(bucket, raised);
            }
            i = end;
        }
    }
    counts
}

} // verus!
