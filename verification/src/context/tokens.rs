//! Token counting, with a cache of counts by content hash.

use vstd::prelude::*;
use vstd::std_specs::hash::spec_keys_iter;
use vstd::std_specs::iter::IteratorSpec;
use vstd::string::StringSliceAdditionalSpecFns;
use vstd::std_specs::hash::DefaultHasherAdditionalSpecFns;
use std::hash::Hasher;
use std::collections::HashMap;
use std::collections::hash_map::DefaultHasher;

verus! {

broadcast use vstd::std_specs::hash::group_hash_axioms;

/// The entries at which the cache of [`count_tokens`] makes room.
pub const DEFAULT_CACHE_SIZE: usize = 10_000;

/// The byte that closes a text in its hash.
pub const HASH_TERMINATOR: u8 = 0xff;

/// A cache of token counts, keyed by content hash.
pub struct TokenCache {
    cache: HashMap<u64, u32>,
    max_size: usize,
}

impl View for TokenCache {
    type V = Map<u64, u32>;

    closed spec fn view(&self) -> Map<u64, u32> {
        self.cache@
    }
}

/// The quick estimate of the tokens in a text of `len` bytes: a quarter of
/// the bytes, rounded up, and at most the greatest `u32`.
pub open spec fn quick_estimate(len: nat) -> u32 {
    if (len + 3) / 4 > u32::MAX {
        u32::MAX
    } else {
        ((len + 3) / 4) as u32
    }
}

/// The hash under which the count of a text is kept: that of the default
/// hasher over the bytes of the text and the closing byte.
pub open spec fn content_hash(text: Seq<char>) -> u64 {
    DefaultHasher::spec_finish(seq![vstd::utf8::encode_utf8(text), seq![HASH_TERMINATOR]])
}

impl TokenCache {
    /// The number of entries from which an insertion makes room first.
    pub closed spec fn capacity(&self) -> usize {
        self.max_size
    }

    /// How many entries a cache of `len` entries drops before it takes a new
    /// one: none below its capacity; else half its capacity, or all where it
    /// holds fewer.
    pub open spec fn room_made(len: nat, capacity: usize) -> nat {
        if len < capacity {
            0
        } else if len <= capacity / 2 {
            len
        } else {
            (capacity / 2) as nat
        }
    }

    /// The entries of a cache with the given capacity after `hash` was
    /// entered with `count`: that entry, and of the others only what the cache
    /// held before. Where the cache was below its capacity, all of them; else
    /// all but as many as [`Self::room_made`] tells, whichever the map gave
    /// up. The entry of `hash` itself may have been among those.
    pub open spec fn entered(
        before: Map<u64, u32>,
        capacity: usize,
        hash: u64,
        count: u32,
        after: Map<u64, u32>,
    ) -> bool {
        let kept = before.len() - Self::room_made(before.len(), capacity);
        &&& after.contains_key(hash)
        &&& after[hash] == count
        &&& forall|key: u64|
            key != hash && #[trigger] after.contains_key(key) ==> before.contains_key(key) && after[key]
                == before[key]
        &&& before.len() < capacity ==> after == before.insert(hash, count)
        &&& kept <= after.len() <= kept + 1
        &&& !before.contains_key(hash) ==> after.len() == kept + 1
    }

    /// An empty cache that makes room at `max_size` entries.
    pub fn new(max_size: usize) -> (cache: Self)
        ensures
            cache@ == Map::<u64, u32>::empty(),
            cache.capacity() == max_size,
    {
        TokenCache { cache: HashMap::with_capacity(max_size), max_size }
    }

    /// The count kept for `hash`.
    pub fn get(&self, hash: u64) -> (count: Option<u32>)
        ensures
            count == if self@.contains_key(hash) {
                Some(self@[hash])
            } else {
                None
            },
    {
        match self.cache.get(&hash) {
            Some(count) => Some(*count),
            None => None,
        }
    }

    /// The number of entries, and the capacity.
    pub fn stats(&self) -> (stats: (usize, usize))
        ensures
            stats.0 == self@.len(),
            stats.1 == self.capacity(),
    {
        (self.cache.len(), self.max_size)
    }

    /// Drops every entry.
    pub fn clear(&mut self)
        ensures
            final(self)@ == Map::<u64, u32>::empty(),
            final(self).capacity() == old(self).capacity(),
    {
        self.cache.clear();
    }

    /// Keys of the cache, each once: `limit` of them, or all where the cache
    /// holds fewer. Which keys these are is for the map to choose.
    fn some_keys(&self, limit: usize) -> (keys: Vec<u64>)
        ensures
            keys.len() == if self@.len() <= limit {
                self@.len()
            } else {
                limit as nat
            },
            keys@.no_duplicates(),
            forall|i: int| 0 <= i < keys.len() ==> self@.contains_key(#[trigger] keys[i]),
    {
        let mut keys: Vec<u64> = Vec::new();
        let ghost all = spec_keys_iter(&self.cache).remaining();
        for key in it: self.cache.keys()
            invariant
                it.seq() == all,
                keys.len() == if it.index() <= limit {
                    it.index()
                } else {
                    limit as int
                },
                forall|i: int| 0 <= i < keys.len() ==> #[trigger] keys[i] == *all[i],
        {
            if keys.len() < limit {
                keys.push(*key);
            }
        }
        proof {
            assert forall|i: int| 0 <= i < keys.len() implies self@.contains_key(#[trigger] keys[i]) by {
                assert(all.unref()[i] == keys[i]);
                assert(all.unref().to_set().contains(keys[i]));
            }
            assert forall|i: int, j: int| 0 <= i < keys.len() && 0 <= j < keys.len() && i != j implies keys[i]
                != keys[j] by {
                assert(all[i] != all[j]);
            }
        }
        keys
    }

    /// Enters `hash` with `count`. A cache that has reached its capacity
    /// first drops half its capacity of entries, whichever the map hands out
    /// first.
    pub fn insert(&mut self, hash: u64, count: u32)
        ensures
            final(self).capacity() == old(self).capacity(),
            Self::entered(old(self)@, old(self).capacity(), hash, count, final(self)@),
    {
        let ghost before = self.cache@;
        if self.cache.len() >= self.max_size {
            let doomed = self.some_keys(self.max_size / 2);
            let mut i: usize = 0;
            while i < doomed.len()
                invariant
                    i <= doomed.len(),
                    self.max_size == old(self).max_size,
                    self.cache@.submap_of(before),
                    self.cache@.dom().finite(),
                    self.cache@.len() + i == before.len(),
                    doomed@.no_duplicates(),
                    forall|j: int| i <= j < doomed.len() ==> self.cache@.contains_key(#[trigger] doomed[j]),
                decreases doomed.len() - i,
            {
                proof {
                    self.cache@.lemma_remove_key_len(doomed[i as int]);
                }
                self.cache.remove(&doomed[i]);
                i += 1;
            }
        }
        let ghost trimmed = self.cache@;
        self.cache.insert(hash, count);
        proof {
            assert(self.cache@ == trimmed.insert(hash, count));
            assert(trimmed.submap_of(before));
            assert(trimmed.len() + Self::room_made(before.len(), old(self).max_size) == before.len());
            assert forall|key: u64| key != hash && #[trigger] self.cache@.contains_key(key) implies before.contains_key(
                key,
            ) && self.cache@[key] == before[key] by {
                assert(trimmed.contains_key(key));
            }
            if before.len() < old(self).max_size {
                assert(trimmed == before);
            }
            if !before.contains_key(hash) {
                assert(!trimmed.contains_key(hash));
            }
        }
    }
}

/// The quick estimate of the tokens in a text: about four bytes to a token.
pub fn estimate_tokens_quick(text: &str) -> (estimate: u32)
    ensures
        estimate == quick_estimate(text.spec_bytes().len()),
{
    let len: usize = text.as_bytes().len();
    let quarters: usize = len / 4;
    let rounded: usize = if len % 4 == 0 {
        quarters
    } else {
        quarters + 1
    };
    assert(rounded == (len + 3) / 4);
    if rounded > u32::MAX as usize {
        u32::MAX
    } else {
        rounded as u32
    }
}

/// The hash under which the count of a text is kept.
pub fn hash_content(content: &str) -> (hash: u64)
    ensures
        hash == content_hash(content@),
{
    let mut hasher = DefaultHasher::new();
    hasher.write(content.as_bytes());
    let closing: [u8; 1] = [HASH_TERMINATOR];
    hasher.write(closing.as_slice());
    proof {
        assert(closing@ =~= seq![HASH_TERMINATOR]);
        assert(hasher@ =~= seq![vstd::utf8::encode_utf8(content@), seq![HASH_TERMINATOR]]);
    }
    hasher.finish()
}

/// The number of tokens that the `cl100k_base` encoding makes of a text,
/// special tokens taken as such; nothing where the tokenizer cannot be built
/// or gives up on the text.
pub uninterp spec fn cl100k_token_count(text: Seq<char>) -> Option<usize>;

/// Counts the tokens of a text with the `cl100k_base` encoding.
///
/// Trusted: the body builds the tokenizer with `tiktoken_rs::cl100k_base`,
/// encodes the text with `CoreBPE::encode`, with the special tokens of
/// `CoreBPE::special_tokens` allowed, and takes the length of the token list.
/// The contract gives that length a name and claims no more of it than that
/// it depends on the text alone.
#[verifier::external_body]
fn tokenize_count(text: &str) -> (count: Option<usize>)
    ensures
        count == cl100k_token_count(text@),
{
    match tiktoken_rs::cl100k_base() {
        Ok(bpe) => match bpe.encode(text, &bpe.special_tokens()) {
            Ok(encoded) => Some(encoded.0.len()),
            Err(_) => None,
        },
        Err(_) => None,
    }
}

/// The entries of the cache that counting starts with, and its capacity: a
/// cache that was not set up yet starts empty, with the default capacity.
pub open spec fn starting(cache: Option<TokenCache>) -> (Map<u64, u32>, usize) {
    match cache {
        Some(c) => (c@, c.capacity()),
        None => (Map::empty(), DEFAULT_CACHE_SIZE),
    }
}

/// What a count of the tokenizer becomes as a `u32`: its low 32 bits.
pub open spec fn as_token_count(tokens: usize) -> u32 {
    (tokens as int % 0x1_0000_0000) as u32
}

/// Counting the tokens of `text` with the cache `before` gave `count` and
/// left the cache `after`.
///
/// An empty text counts zero and leaves the cache alone. Else the cache is
/// set up. A count that it holds under the hash of the text is the result.
/// Else the tokenizer counts, and the cache keeps the count; where the
/// tokenizer fails, the result is the quick estimate, which is not kept.
pub open spec fn counted(before: Option<TokenCache>, text: Seq<char>, count: u32, after: Option<TokenCache>) -> bool {
    if text.len() == 0 {
        count == 0 && after == before
    } else {
        let start = starting(before);
        let hash = content_hash(text);
        &&& after is Some
        &&& after.unwrap().capacity() == start.1
        &&& if start.0.contains_key(hash) {
            count == start.0[hash] && after.unwrap()@ == start.0
        } else {
            match cl100k_token_count(text) {
                Some(tokens) => count == as_token_count(tokens) && TokenCache::entered(
                    start.0,
                    start.1,
                    hash,
                    count,
                    after.unwrap()@,
                ),
                None => count == quick_estimate(vstd::utf8::encode_utf8(text).len())
                    && after.unwrap()@ == start.0,
            }
        }
    }
}

/// What follows a miss in the cache: the count of the tokenizer is the
/// result and is entered into the cache; without one, the quick estimate is
/// the result and the cache stays as it is.
pub fn settle_count(cache: &mut TokenCache, hash: u64, tokenized: Option<usize>, estimate: u32) -> (count:
    u32)
    ensures
        final(cache).capacity() == old(cache).capacity(),
        match tokenized {
            Some(tokens) => count == as_token_count(tokens) && TokenCache::entered(
                old(cache)@,
                old(cache).capacity(),
                hash,
                count,
                final(cache)@,
            ),
            None => count == estimate && final(cache)@ == old(cache)@,
        },
{
    match tokenized {
        Some(tokens) => {
            let count: u32 = (tokens as u64 % 0x1_0000_0000) as u32;
            cache.insert(hash, count);
            count
        },
        None => estimate,
    }
}

/// Counts the tokens of a text with the `cl100k_base` encoding, looking the
/// text up in the cache first.
pub fn count_tokens(cache: &mut Option<TokenCache>, text: &str) -> (count: u32)
    ensures
        counted(*old(cache), text@, count, *final(cache)),
{
    if text.is_empty() {
        return 0;
    }
    let mut ready: TokenCache = match cache.take() {
        Some(c) => c,
        None => TokenCache::new(DEFAULT_CACHE_SIZE),
    };
    let hash = hash_content(text);
    let count: u32 = match ready.get(hash) {
        Some(kept) => kept,
        None => {
            let tokenized = tokenize_count(text);
            let estimate = estimate_tokens_quick(text);
            settle_count(&mut ready, hash, tokenized, estimate)
        },
    };
    *cache = Some(ready);
    count
}

/// The caches of a run of counts lead from `first` to `last`: counting each
/// text in turn gave the count at its place and the next cache.
pub open spec fn counted_in_turn(
    first: Option<TokenCache>,
    texts: Seq<Seq<char>>,
    counts: Seq<u32>,
    caches: Seq<Option<TokenCache>>,
    last: Option<TokenCache>,
) -> bool {
    &&& counts.len() == texts.len()
    &&& caches.len() == texts.len() + 1
    &&& caches[0] == first
    &&& caches[texts.len() as int] == last
    &&& forall|i: int|
        0 <= i < texts.len() ==> counted(#[trigger] caches[i], texts[i], counts[i], caches[i + 1])
}

/// The texts of a list of string slices, in order.
pub open spec fn slice_views(texts: Seq<&str>) -> Seq<Seq<char>> {
    Seq::new(texts.len(), |i: int| texts[i]@)
}

/// Counts the tokens of several texts, one after the other.
pub fn count_tokens_batch(cache: &mut Option<TokenCache>, texts: &[&str]) -> (counts: Vec<u32>)
    ensures
        counts.len() == texts.len(),
        exists|caches: Seq<Option<TokenCache>>| #[trigger]
            counted_in_turn(*old(cache), slice_views(texts@), counts@, caches, *final(cache)),
{
    let ghost views = slice_views(texts@);
    let ghost mut caches: Seq<Option<TokenCache>> = seq![*cache];
    let mut counts: Vec<u32> = Vec::new();
    let mut i: usize = 0;
    while i < texts.len()
        invariant
            i <= texts.len(),
            views == slice_views(texts@),
            counts.len() == i,
            caches.len() == i + 1,
            caches[0] == *old(cache),
            caches[i as int] == *cache,
            forall|j: int|
                0 <= j < i ==> counted(#[trigger] caches[j], views[j], counts[j], caches[j + 1]),
        decreases texts.len() - i,
    {
        let count = count_tokens(cache, texts[i]);
        counts.push(count);
        proof {
            caches = caches.push(*cache);
        }
        i += 1;
    }
    assert(counted_in_turn(*old(cache), views, counts@, caches, *cache));
    counts
}

/// Whether a text has more tokens than `limit`.
///
/// The quick estimate decides where it is below half the limit (no) or above
/// twice the limit (yes); between the two the tokens are counted.
pub fn exceeds_token_limit(cache: &mut Option<TokenCache>, text: &str, limit: u32) -> (exceeds: bool)
    ensures
        ({
            let estimate = quick_estimate(text.spec_bytes().len());
            if estimate < limit / 2 {
                !exceeds && *final(cache) == *old(cache)
            } else if estimate > limit * 2 {
                exceeds && *final(cache) == *old(cache)
            } else {
                exists|count: u32| #[trigger]
                    counted(*old(cache), text@, count, *final(cache)) && exceeds == (count > limit)
            }
        }),
{
    let estimate = estimate_tokens_quick(text);
    if estimate < limit / 2 {
        return false;
    }
    if estimate as u64 > limit as u64 * 2 {
        return true;
    }
    let count = count_tokens(cache, text);
    count > limit
}

/// Drops every entry of the cache. A cache that was not set up stays so.
pub fn clear_token_cache(cache: &mut Option<TokenCache>)
    ensures
        *old(cache) is None ==> *final(cache) is None,
        *old(cache) matches Some(before) ==> *final(cache) is Some && final(cache).unwrap()@ == Map::<
            u64,
            u32,
        >::empty() && final(cache).unwrap().capacity() == before.capacity(),
{
    match cache.take() {
        Some(mut c) => {
            c.clear();
            *cache = Some(c);
        },
        None => {},
    }
}

/// The number of entries of the cache and its capacity; both zero for a
/// cache that was not set up.
pub fn get_cache_stats(cache: &Option<TokenCache>) -> (stats: (usize, usize))
    ensures
        stats == match *cache {
            Some(c) => (c@.len() as usize, c.capacity()),
            None => (0usize, 0usize),
        },
{
    match cache {
        Some(c) => c.stats(),
        None => (0, 0),
    }
}

} // verus!
