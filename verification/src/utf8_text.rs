//! Cutting texts at byte positions.
//!
//! A text can be cut where a character starts. The position of an ASCII
//! byte is such a place, and so is the position after it.

use vstd::prelude::*;
use vstd::string::StringSliceAdditionalSpecFns;
use vstd::utf8::{
    encode_utf8, encode_utf8_valid_utf8, is_char_boundary,
    is_char_boundary_iff_not_is_continuation_byte, is_char_boundary_start_end_of_seq,
    length_of_first_scalar, pop_first_scalar, valid_utf8, valid_utf8_split,
};

verus! {

/// The bytes of two texts, one after the other, are the bytes of the joined
/// text.
pub proof fn lemma_encode_concat(first: Seq<char>, second: Seq<char>)
    ensures
        encode_utf8(first + second) == encode_utf8(first) + encode_utf8(second),
    decreases first.len(),
{
    if first.len() == 0 {
        assert(first + second =~= second);
        assert(encode_utf8(first) + encode_utf8(second) =~= encode_utf8(second));
    } else {
        lemma_encode_concat(first.drop_first(), second);
        assert((first + second).drop_first() =~= first.drop_first() + second);
        assert((first + second)[0] == first[0]);
        assert(encode_utf8(first + second) =~= encode_utf8(first) + encode_utf8(second));
    }
}

/// The position after an ASCII byte of a text is a place where a character
/// starts, or the end of the text.
pub proof fn lemma_boundary_after_ascii(bytes: Seq<u8>, i: int)
    requires
        valid_utf8(bytes),
        0 <= i < bytes.len(),
        bytes[i] < 0x80,
    ensures
        is_char_boundary(bytes, i),
        is_char_boundary(bytes, i + 1),
    decreases bytes.len(),
{
    is_char_boundary_iff_not_is_continuation_byte(bytes, i);
    let first = length_of_first_scalar(bytes);
    let rest = pop_first_scalar(bytes);
    if i < first {
        assert(i == 0);
        assert(first == 1);
        reveal_with_fuel(is_char_boundary, 2);
    } else {
        assert(rest[i - first] == bytes[i]);
        lemma_boundary_after_ascii(rest, i - first);
        reveal_with_fuel(is_char_boundary, 2);
    }
}

/// A place where a character starts stays one in what follows an earlier
/// such place.
pub proof fn lemma_boundary_in_tail(bytes: Seq<u8>, from: int, to: int)
    requires
        valid_utf8(bytes),
        0 <= from <= to <= bytes.len(),
        is_char_boundary(bytes, from),
        is_char_boundary(bytes, to),
    ensures
        valid_utf8(bytes.subrange(from, bytes.len() as int)),
        is_char_boundary(bytes.subrange(from, bytes.len() as int), to - from),
{
    let tail = bytes.subrange(from, bytes.len() as int);
    valid_utf8_split(bytes, from);
    if to == bytes.len() {
        is_char_boundary_start_end_of_seq(tail);
    } else {
        is_char_boundary_iff_not_is_continuation_byte(bytes, to);
        is_char_boundary_iff_not_is_continuation_byte(tail, to - from);
        assert(tail[to - from] == bytes[to]);
    }
}

/// The part of a text from byte `from` up to byte `to`.
pub fn slice<'a>(text: &'a str, from: usize, to: usize) -> (part: &'a str)
    requires
        from <= to <= text.spec_bytes().len(),
        is_char_boundary(text.spec_bytes(), from as int),
        is_char_boundary(text.spec_bytes(), to as int),
    ensures
        part.spec_bytes() == text.spec_bytes().subrange(from as int, to as int),
{
    proof {
        encode_utf8_valid_utf8(text@);
        lemma_boundary_in_tail(text.spec_bytes(), from as int, to as int);
    }
    let tail = text.split_at(from).1;
    let part = tail.split_at(to - from).0;
    assert(part.spec_bytes() =~= text.spec_bytes().subrange(from as int, to as int));
    part
}

/// The byte of a line feed.
pub const LINE_FEED: u8 = 10;

/// The byte of a carriage return.
pub const CARRIAGE_RETURN: u8 = 13;

/// The first position from `from` on at which two line feeds stand, or the
/// length of the text where they stand nowhere.
pub open spec fn next_break(bytes: Seq<u8>, from: int) -> int
    decreases bytes.len() - from,
{
    if from < 0 || from + 1 >= bytes.len() {
        bytes.len() as int
    } else if bytes[from] == LINE_FEED && bytes[from + 1] == LINE_FEED {
        from
    } else {
        next_break(bytes, from + 1)
    }
}

/// The next break is not before the start of the search, and two line feeds
/// stand there, unless it is the end of the text.
pub proof fn lemma_next_break(bytes: Seq<u8>, from: int)
    requires
        0 <= from <= bytes.len(),
    ensures
        from <= next_break(bytes, from) <= bytes.len(),
        next_break(bytes, from) < bytes.len() ==> next_break(bytes, from) + 1 < bytes.len()
            && bytes[next_break(bytes, from)] == LINE_FEED && bytes[next_break(bytes, from) + 1]
            == LINE_FEED,
    decreases bytes.len() - from,
{
    if from + 1 < bytes.len() && !(bytes[from] == LINE_FEED && bytes[from + 1] == LINE_FEED) {
        lemma_next_break(bytes, from + 1);
    }
}

/// The first position from `from` on at which two line feeds stand.
pub fn find_break(bytes: &[u8], from: usize) -> (at: usize)
    requires
        from <= bytes.len(),
    ensures
        at == next_break(bytes@, from as int),
        from <= at <= bytes.len(),
{
    proof {
        lemma_next_break(bytes@, from as int);
    }
    let mut at: usize = from;
    while at < bytes.len() && at + 1 < bytes.len() && !(bytes[at] == LINE_FEED && bytes[at + 1]
        == LINE_FEED)
        invariant
            from <= at <= bytes.len(),
            next_break(bytes@, at as int) == next_break(bytes@, from as int),
        decreases bytes.len() - at,
    {
        at += 1;
    }
    if at >= bytes.len() || at + 1 >= bytes.len() {
        bytes.len()
    } else {
        at
    }
}

/// The first position from `from` on at which a line feed stands, or the
/// length of the text where none stands.
pub open spec fn next_line_feed(bytes: Seq<u8>, from: int) -> int
    decreases bytes.len() - from,
{
    if from < 0 || from >= bytes.len() {
        bytes.len() as int
    } else if bytes[from] == LINE_FEED {
        from
    } else {
        next_line_feed(bytes, from + 1)
    }
}

/// The next line feed is not before the start of the search, and a line feed
/// stands there, unless it is the end of the text.
pub proof fn lemma_next_line_feed(bytes: Seq<u8>, from: int)
    requires
        0 <= from <= bytes.len(),
    ensures
        from <= next_line_feed(bytes, from) <= bytes.len(),
        next_line_feed(bytes, from) < bytes.len() ==> bytes[next_line_feed(bytes, from)] == LINE_FEED,
    decreases bytes.len() - from,
{
    if from < bytes.len() && bytes[from] != LINE_FEED {
        lemma_next_line_feed(bytes, from + 1);
    }
}

/// The first position from `from` on at which a line feed stands.
pub fn find_line_feed(bytes: &[u8], from: usize) -> (at: usize)
    requires
        from <= bytes.len(),
    ensures
        at == next_line_feed(bytes@, from as int),
        from <= at <= bytes.len(),
{
    proof {
        lemma_next_line_feed(bytes@, from as int);
    }
    let mut at: usize = from;
    while at < bytes.len() && bytes[at] != LINE_FEED
        invariant
            from <= at <= bytes.len(),
            next_line_feed(bytes@, at as int) == next_line_feed(bytes@, from as int),
        decreases bytes.len() - at,
    {
        at += 1;
    }
    at
}

/// The end of the line that starts at `start`, without the line feed that
/// ends it and without a carriage return before that line feed.
pub open spec fn line_content_end(bytes: Seq<u8>, start: int) -> int {
    let feed = next_line_feed(bytes, start);
    if start < feed < bytes.len() && bytes[feed - 1] == CARRIAGE_RETURN {
        feed - 1
    } else {
        feed
    }
}

/// The start of the line after the one that starts at `start`, or the length
/// of the text where that line is the last.
pub open spec fn next_line_start(bytes: Seq<u8>, start: int) -> int {
    let feed = next_line_feed(bytes, start);
    if feed < bytes.len() {
        feed + 1
    } else {
        bytes.len() as int
    }
}

/// The line that starts at `start`: where its content ends, and where the
/// next line starts. Both are places where a character starts.
pub fn read_line(text: &str, start: usize) -> (line: (usize, usize))
    requires
        start < text.spec_bytes().len(),
        is_char_boundary(text.spec_bytes(), start as int),
    ensures
        line.0 == line_content_end(text.spec_bytes(), start as int),
        line.1 == next_line_start(text.spec_bytes(), start as int),
        start <= line.0 <= line.1 <= text.spec_bytes().len(),
        start < line.1,
        line.1 <= line.0 + 2,
        is_char_boundary(text.spec_bytes(), line.0 as int),
        is_char_boundary(text.spec_bytes(), line.1 as int),
{
    let bytes = text.as_bytes();
    let ghost all = text.spec_bytes();
    let feed = find_line_feed(bytes, start);
    proof {
        encode_utf8_valid_utf8(text@);
        is_char_boundary_start_end_of_seq(all);
        lemma_next_line_feed(all, start as int);
        if feed < all.len() {
            lemma_boundary_after_ascii(all, feed as int);
        }
    }
    if feed < bytes.len() {
        if start < feed && bytes[feed - 1] == CARRIAGE_RETURN {
            proof {
                lemma_boundary_after_ascii(all, feed - 1);
            }
            (feed - 1, feed + 1)
        } else {
            (feed, feed + 1)
        }
    } else {
        (feed, feed)
    }
}

/// How many hash signs stand at the start of the bytes from `from` to `to`.
pub open spec fn leading_hashes(bytes: Seq<u8>, from: int, to: int) -> int
    decreases to - from,
{
    if from < 0 || from >= to || to > bytes.len() || bytes[from] != HASH_SIGN {
        0
    } else {
        1 + leading_hashes(bytes, from + 1, to)
    }
}

/// The byte of a hash sign.
pub const HASH_SIGN: u8 = 35;

/// No more hash signs lead than there are bytes.
pub proof fn lemma_leading_hashes(bytes: Seq<u8>, from: int, to: int)
    requires
        0 <= from <= to <= bytes.len(),
    ensures
        0 <= leading_hashes(bytes, from, to) <= to - from,
    decreases to - from,
{
    if from < to && bytes[from] == HASH_SIGN {
        lemma_leading_hashes(bytes, from + 1, to);
    }
}

/// Counts the hash signs at the start of the bytes from `from` to `to`.
pub fn count_leading_hashes(bytes: &[u8], from: usize, to: usize) -> (count: usize)
    requires
        from <= to <= bytes.len(),
    ensures
        count == leading_hashes(bytes@, from as int, to as int),
        count <= to - from,
        forall|j: int| from <= j < from + count ==> bytes[j] == HASH_SIGN,
{
    proof {
        lemma_leading_hashes(bytes@, from as int, to as int);
    }
    let mut at: usize = from;
    while at < to && bytes[at] == HASH_SIGN
        invariant
            from <= at <= to <= bytes.len(),
            leading_hashes(bytes@, from as int, to as int) == (at - from) + leading_hashes(
                bytes@,
                at as int,
                to as int,
            ),
            forall|j: int| from <= j < at ==> bytes[j] == HASH_SIGN,
        decreases to - at,
    {
        at += 1;
    }
    at - from
}

} // verus!
