//! Facts about sequences that loops over a list lean on.

use vstd::prelude::*;

verus! {

/// The texts of a list of strings, in order.
pub open spec fn text_views(strings: Seq<String>) -> Seq<Seq<char>> {
    Seq::new(strings.len(), |i: int| strings[i]@)
}

/// The texts of a list with one string more at its end.
pub proof fn lemma_text_views_push(strings: Seq<String>, last: String)
    ensures
        text_views(strings.push(last)) == text_views(strings).push(last@),
{
    assert(text_views(strings.push(last)) =~= text_views(strings).push(last@));
}

/// Filtering one entry more keeps what was kept, and the new entry where it
/// meets the predicate.
pub proof fn lemma_filter_take_step<T>(s: Seq<T>, pred: spec_fn(T) -> bool, k: int)
    requires
        0 <= k < s.len(),
    ensures
        s.take(k + 1).filter(pred) == if pred(s[k]) {
            s.take(k).filter(pred).push(s[k])
        } else {
            s.take(k).filter(pred)
        },
{
    reveal(Seq::filter);
    assert(s.take(k + 1).drop_last() =~= s.take(k));
}

/// Nothing is kept of an empty prefix.
pub proof fn lemma_filter_take_none<T>(s: Seq<T>, pred: spec_fn(T) -> bool)
    ensures
        s.take(0).filter(pred) == Seq::<T>::empty(),
{
    reveal(Seq::filter);
    assert(s.take(0) =~= Seq::<T>::empty());
}

/// The whole sequence is its own longest prefix.
pub proof fn lemma_take_all<T>(s: Seq<T>)
    ensures
        s.take(s.len() as int) == s,
{
    assert(s.take(s.len() as int) =~= s);
}

/// Filtering a sequence with one entry more at its end.
pub proof fn lemma_filter_push<T>(s: Seq<T>, pred: spec_fn(T) -> bool, last: T)
    ensures
        s.push(last).filter(pred) == if pred(last) {
            s.filter(pred).push(last)
        } else {
            s.filter(pred)
        },
{
    reveal(Seq::filter);
    assert(s.push(last).drop_last() =~= s);
}

/// Two predicates that agree on every entry keep the same entries.
pub proof fn lemma_filter_agree<T>(s: Seq<T>, p: spec_fn(T) -> bool, q: spec_fn(T) -> bool)
    requires
        forall|i: int| 0 <= i < s.len() ==> p(#[trigger] s[i]) == q(s[i]),
    ensures
        s.filter(p) == s.filter(q),
    decreases s.len(),
{
    reveal(Seq::filter);
    if s.len() > 0 {
        assert(p(s[s.len() - 1]) == q(s[s.len() - 1]));
        assert forall|i: int| 0 <= i < s.drop_last().len() implies p(#[trigger] s.drop_last()[i]) == q(
            s.drop_last()[i],
        ) by {
            assert(s.drop_last()[i] == s[i]);
        }
        lemma_filter_agree(s.drop_last(), p, q);
    }
}

/// Taking an entry out and putting another in its place changes that entry
/// and no other.
pub proof fn lemma_replace_at<T>(s: Seq<T>, i: int, entry: T)
    requires
        0 <= i < s.len(),
    ensures
        s.remove(i).insert(i, entry) == s.update(i, entry),
{
    assert(s.remove(i).insert(i, entry) =~= s.update(i, entry));
}

/// The first position at which `key` stands among `keys`.
pub open spec fn first_index_of(keys: Seq<Seq<char>>, key: Seq<char>) -> Option<int>
    decreases keys.len(),
{
    if keys.len() == 0 {
        None
    } else if keys[0] == key {
        Some(0int)
    } else {
        match first_index_of(keys.drop_first(), key) {
            Some(i) => Some(i + 1),
            None => None,
        }
    }
}

/// The first position holds the key, and no position before it does; where
/// there is none, no position holds the key.
pub proof fn lemma_first_index_of(keys: Seq<Seq<char>>, key: Seq<char>)
    ensures
        match first_index_of(keys, key) {
            Some(i) => 0 <= i < keys.len() && keys[i] == key && forall|j: int|
                0 <= j < i ==> keys[j] != key,
            None => forall|j: int| 0 <= j < keys.len() ==> keys[j] != key,
        },
    decreases keys.len(),
{
    if keys.len() > 0 && keys[0] != key {
        let rest = keys.drop_first();
        lemma_first_index_of(rest, key);
        match first_index_of(rest, key) {
            Some(i) => {
                assert(rest[i] == keys[i + 1]);
                assert forall|j: int| 0 <= j < i + 1 implies keys[j] != key by {
                    if j > 0 {
                        assert(rest[j - 1] == keys[j]);
                    }
                }
            },
            None => {
                assert forall|j: int| 0 <= j < keys.len() implies keys[j] != key by {
                    if j > 0 {
                        assert(rest[j - 1] == keys[j]);
                    }
                }
            },
        }
    }
}

/// A position that holds the key, with no such position before it, is the
/// first.
pub proof fn lemma_first_index_found(keys: Seq<Seq<char>>, key: Seq<char>, i: int)
    requires
        0 <= i < keys.len(),
        keys[i] == key,
        forall|j: int| 0 <= j < i ==> keys[j] != key,
    ensures
        first_index_of(keys, key) == Some(i),
{
    lemma_first_index_of(keys, key);
}

/// Where no position holds the key, there is no first position.
pub proof fn lemma_first_index_missing(keys: Seq<Seq<char>>, key: Seq<char>)
    requires
        forall|j: int| 0 <= j < keys.len() ==> keys[j] != key,
    ensures
        first_index_of(keys, key) is None,
{
    lemma_first_index_of(keys, key);
}

/// Two predicates that no entry meets together keep no more entries than
/// there are.
pub proof fn lemma_filters_apart<T>(s: Seq<T>, p: spec_fn(T) -> bool, q: spec_fn(T) -> bool)
    requires
        forall|i: int| 0 <= i < s.len() ==> !(p(#[trigger] s[i]) && q(s[i])),
    ensures
        s.filter(p).len() + s.filter(q).len() <= s.len(),
    decreases s.len(),
{
    if s.len() == 0 {
        s.lemma_filter_len(p);
        s.lemma_filter_len(q);
    } else {
        let shorter = s.drop_last();
        lemma_filters_apart(shorter, p, q);
        lemma_filter_push(shorter, p, s.last());
        lemma_filter_push(shorter, q, s.last());
        assert(shorter.push(s.last()) =~= s);
    }
}

} // verus!
