//! Texts: comparing them, joining them, and writing numbers into them.

use vstd::prelude::*;
use vstd::string::{StrSliceExecFns, StringExecFns, StringSliceAdditionalSpecFns};
use vstd::utf8::encode_utf8;
use vstd::utf8::encode_utf8_decode_utf8;
use crate::chars::is_whitespace_char;

verus! {

/// Whether two texts are equal, character for character.
pub fn str_eq(a: &str, b: &str) -> (equal: bool)
    ensures
        equal == (a@ == b@),
{
    let x = a.as_bytes();
    let y = b.as_bytes();
    proof {
        encode_utf8_decode_utf8(a@);
        encode_utf8_decode_utf8(b@);
    }
    if x.len() != y.len() {
        return false;
    }
    let mut i: usize = 0;
    while i < x.len()
        invariant
            i <= x.len(),
            x.len() == y.len(),
            x@ == a.spec_bytes(),
            y@ == b.spec_bytes(),
            forall|j: int| 0 <= j < i ==> x[j] == y[j],
        decreases x.len() - i,
    {
        if x[i] != y[i] {
            return false;
        }
        i += 1;
    }
    assert(x@ =~= y@);
    true
}

/// The two texts, one after the other.
pub fn concat(first: &str, second: &str) -> (joined: String)
    ensures
        joined@ == first@ + second@,
{
    let mut joined = first.to_owned();
    joined.append(second);
    joined
}

/// The character of a decimal digit.
pub open spec fn digit_char(digit: nat) -> char {
    if digit == 0 {
        '0'
    } else if digit == 1 {
        '1'
    } else if digit == 2 {
        '2'
    } else if digit == 3 {
        '3'
    } else if digit == 4 {
        '4'
    } else if digit == 5 {
        '5'
    } else if digit == 6 {
        '6'
    } else if digit == 7 {
        '7'
    } else if digit == 8 {
        '8'
    } else {
        '9'
    }
}

/// A number in decimal digits, without leading zeros.
pub open spec fn decimal(n: nat) -> Seq<char>
    decreases n,
{
    if n < 10 {
        seq![digit_char(n)]
    } else {
        decimal(n / 10).push(digit_char(n % 10))
    }
}

/// The text of one decimal digit.
fn digit_text(digit: u64) -> (text: &'static str)
    requires
        digit < 10,
    ensures
        text@ == seq![digit_char(digit as nat)],
{
    proof {
        reveal_strlit("0");
        reveal_strlit("1");
        reveal_strlit("2");
        reveal_strlit("3");
        reveal_strlit("4");
        reveal_strlit("5");
        reveal_strlit("6");
        reveal_strlit("7");
        reveal_strlit("8");
        reveal_strlit("9");
    }
    let text = if digit == 0 {
        "0"
    } else if digit == 1 {
        "1"
    } else if digit == 2 {
        "2"
    } else if digit == 3 {
        "3"
    } else if digit == 4 {
        "4"
    } else if digit == 5 {
        "5"
    } else if digit == 6 {
        "6"
    } else if digit == 7 {
        "7"
    } else if digit == 8 {
        "8"
    } else {
        "9"
    };
    assert(text@ =~= seq![digit_char(digit as nat)]);
    text
}

/// Writes a number in decimal digits at the end of a text.
pub fn push_decimal(out: &mut String, n: u64)
    ensures
        final(out)@ == old(out)@ + decimal(n as nat),
    decreases n,
{
    if n >= 10 {
        push_decimal(out, n / 10);
    }
    out.append(digit_text(n % 10));
    proof {
        if n >= 10 {
            assert(final(out)@ =~= old(out)@ + decimal(n as nat));
        } else {
            assert(final(out)@ =~= old(out)@ + decimal(n as nat));
        }
    }
}

/// The character of a hexadecimal digit, in lower case.
pub open spec fn hex_char(digit: nat) -> char {
    if digit < 10 {
        digit_char(digit)
    } else if digit == 10 {
        'a'
    } else if digit == 11 {
        'b'
    } else if digit == 12 {
        'c'
    } else if digit == 13 {
        'd'
    } else if digit == 14 {
        'e'
    } else {
        'f'
    }
}

/// The last `width` hexadecimal digits of a number, with leading zeros.
pub open spec fn hex_digits(n: nat, width: nat) -> Seq<char>
    decreases width,
{
    if width == 0 {
        Seq::empty()
    } else {
        hex_digits(n / 16, (width - 1) as nat).push(hex_char(n % 16))
    }
}

/// The text of one hexadecimal digit.
fn hex_text(digit: u64) -> (text: &'static str)
    requires
        digit < 16,
    ensures
        text@ == seq![hex_char(digit as nat)],
{
    if digit < 10 {
        digit_text(digit)
    } else {
        proof {
            reveal_strlit("a");
            reveal_strlit("b");
            reveal_strlit("c");
            reveal_strlit("d");
            reveal_strlit("e");
            reveal_strlit("f");
        }
        let text = if digit == 10 {
            "a"
        } else if digit == 11 {
            "b"
        } else if digit == 12 {
            "c"
        } else if digit == 13 {
            "d"
        } else if digit == 14 {
            "e"
        } else {
            "f"
        };
        assert(text@ =~= seq![hex_char(digit as nat)]);
        text
    }
}

/// Writes the last `width` hexadecimal digits of a number at the end of a
/// text.
pub fn push_hex(out: &mut String, n: u64, width: u32)
    ensures
        final(out)@ == old(out)@ + hex_digits(n as nat, width as nat),
    decreases width,
{
    if width == 0 {
        assert(out@ =~= old(out)@ + hex_digits(n as nat, 0));
        return ;
    }
    push_hex(out, n / 16, width - 1);
    out.append(hex_text(n % 16));
    assert(final(out)@ =~= old(out)@ + hex_digits(n as nat, width as nat));
}

/// The characters of a text, in order.
pub fn to_chars(text: &str) -> (chars: Vec<char>)
    ensures
        chars@ == text@,
{
    let mut chars: Vec<char> = Vec::new();
    for c in it: text.chars()
        invariant
            it.seq() == text@,
            chars@ == text@.take(it.index() as int),
    {
        chars.push(c);
        assert(text@.take(it.index() + 1) =~= text@.take(it.index() as int).push(c));
    }
    assert(text@.take(text@.len() as int) =~= text@);
    chars
}

/// Every character of the text is white space. The empty text is blank.
pub open spec fn is_blank(text: Seq<char>) -> bool {
    forall|i: int| 0 <= i < text.len() ==> is_whitespace_char(#[trigger] text[i])
}

/// Whether a text holds nothing but white space.
pub fn is_blank_text(text: &str) -> (blank: bool)
    ensures
        blank == is_blank(text@),
{
    let chars = to_chars(text);
    let mut i: usize = 0;
    while i < chars.len()
        invariant
            i <= chars.len(),
            chars@ == text@,
            forall|j: int| 0 <= j < i ==> is_whitespace_char(#[trigger] chars[j]),
        decreases chars.len() - i,
    {
        if !chars[i].is_whitespace() {
            return false;
        }
        i += 1;
    }
    true
}

/// The quick estimate of the tokens in `len` bytes of text: a quarter of the
/// bytes, rounded up, and at most the greatest `u32`.
pub open spec fn token_estimate(len: nat) -> u32 {
    if (len + 3) / 4 > u32::MAX {
        u32::MAX
    } else {
        ((len + 3) / 4) as u32
    }
}

/// Computes [`token_estimate`].
pub fn estimate_tokens(len: usize) -> (estimate: u32)
    ensures
        estimate == token_estimate(len as nat),
{
    let quarters: usize = len / 4;
    let rounded: usize = if len % 4 == 0 {
        quarters
    } else {
        quarters + 1
    };
    assert(rounded == (len + 3) / 4);
    if rounded > u32::MAX as usize {
        u32::MAX
    } else {
        rounded as u32
    }
}

/// The list of bytes `a` comes before `b` in the order of a dictionary: at
/// the first place where the two differ, `a` has the lesser byte or has
/// ended.
pub open spec fn bytes_before(a: Seq<u8>, b: Seq<u8>) -> bool {
    exists|k: int|
        0 <= k <= a.len() && k <= b.len() && #[trigger] a.subrange(0, k) == b.subrange(0, k) && (if k
            == a.len() {
            k < b.len()
        } else {
            k < b.len() && a[k] < b[k]
        })
}

/// No list of bytes comes before itself.
pub proof fn lemma_not_before_itself(a: Seq<u8>)
    ensures
        !bytes_before(a, a),
{
}

/// Of two lists of bytes, at most one comes before the other.
pub proof fn lemma_before_one_way(a: Seq<u8>, b: Seq<u8>)
    requires
        bytes_before(a, b),
    ensures
        !bytes_before(b, a),
{
    if bytes_before(b, a) {
        let k = choose|k: int|
            0 <= k <= a.len() && k <= b.len() && #[trigger] a.subrange(0, k) == b.subrange(0, k) && (if k
                == a.len() {
                k < b.len()
            } else {
                k < b.len() && a[k] < b[k]
            });
        let m = choose|m: int|
            0 <= m <= b.len() && m <= a.len() && #[trigger] b.subrange(0, m) == a.subrange(0, m) && (if m
                == b.len() {
                m < a.len()
            } else {
                m < a.len() && b[m] < a[m]
            });
        if k < m {
            assert(b.subrange(0, m)[k] == a.subrange(0, m)[k]);
        } else if m < k {
            assert(a.subrange(0, k)[m] == b.subrange(0, k)[m]);
        }
    }
}

/// The order of lists of bytes is transitive.
pub proof fn lemma_before_transitive(a: Seq<u8>, b: Seq<u8>, c: Seq<u8>)
    requires
        bytes_before(a, b),
        bytes_before(b, c),
    ensures
        bytes_before(a, c),
{
    let k = choose|k: int|
        0 <= k <= a.len() && k <= b.len() && #[trigger] a.subrange(0, k) == b.subrange(0, k) && (if k
            == a.len() {
            k < b.len()
        } else {
            k < b.len() && a[k] < b[k]
        });
    let m = choose|m: int|
        0 <= m <= b.len() && m <= c.len() && #[trigger] b.subrange(0, m) == c.subrange(0, m) && (if m
            == b.len() {
            m < c.len()
        } else {
            m < c.len() && b[m] < c[m]
        });
    let w = if k <= m {
        k
    } else {
        m
    };
    assert forall|i: int| 0 <= i < w implies a[i] == c[i] by {
        assert(a.subrange(0, k)[i] == b.subrange(0, k)[i]);
        assert(b.subrange(0, m)[i] == c.subrange(0, m)[i]);
    }
    assert(a.subrange(0, w) =~= c.subrange(0, w));
    if k < m {
        assert(b.subrange(0, m)[k] == c.subrange(0, m)[k]);
    } else if m < k {
        assert(a.subrange(0, k)[m] == b.subrange(0, k)[m]);
    }
}

/// Of two lists of bytes one comes before the other, or they are the same.
pub proof fn lemma_bytes_order(a: Seq<u8>, b: Seq<u8>)
    ensures
        bytes_before(a, b) || a == b || bytes_before(b, a),
{
    let k = first_difference(a, b, 0);
    assert(a.subrange(0, 0) =~= b.subrange(0, 0));
    lemma_first_difference(a, b, 0);
    if k == a.len() && k == b.len() {
        assert(a =~= a.subrange(0, k));
        assert(b =~= b.subrange(0, k));
    } else if k == a.len() || (k < b.len() && a[k] < b[k]) {
        assert(a.subrange(0, k) == b.subrange(0, k));
    } else {
        assert(b.subrange(0, k) == a.subrange(0, k));
    }
}

/// The first position from `from` on at which two lists of bytes differ, or
/// at which one of them ends.
pub open spec fn first_difference(a: Seq<u8>, b: Seq<u8>, from: int) -> int
    decreases a.len() - from,
{
    if 0 <= from < a.len() && from < b.len() && a[from] == b[from] {
        first_difference(a, b, from + 1)
    } else {
        from
    }
}

/// Up to their first difference two lists of bytes agree.
pub proof fn lemma_first_difference(a: Seq<u8>, b: Seq<u8>, from: int)
    requires
        0 <= from <= a.len(),
        from <= b.len(),
        a.subrange(0, from) == b.subrange(0, from),
    ensures
        from <= first_difference(a, b, from) <= a.len(),
        first_difference(a, b, from) <= b.len(),
        a.subrange(0, first_difference(a, b, from)) == b.subrange(0, first_difference(a, b, from)),
        first_difference(a, b, from) < a.len() && first_difference(a, b, from) < b.len() ==> a[first_difference(
            a,
            b,
            from,
        )] != b[first_difference(a, b, from)],
    decreases a.len() - from,
{
    if from < a.len() && from < b.len() && a[from] == b[from] {
        assert(a.subrange(0, from + 1) =~= a.subrange(0, from).push(a[from]));
        assert(b.subrange(0, from + 1) =~= b.subrange(0, from).push(b[from]));
        lemma_first_difference(a, b, from + 1);
    }
}

/// The text `a` comes before the text `b` in the order in which strings are
/// sorted: that of their bytes.
pub open spec fn text_before(a: Seq<char>, b: Seq<char>) -> bool {
    bytes_before(encode_utf8(a), encode_utf8(b))
}

/// How two texts stand in the order of strings.
#[derive(Debug, Clone, Copy, PartialEq, Eq, Structural)]
pub enum TextOrder {
    Before,
    Same,
    After,
}

/// How the text `a` stands to the text `b` in the order of strings.
pub fn text_order(a: &str, b: &str) -> (order: TextOrder)
    ensures
        order == TextOrder::Before <==> text_before(a@, b@),
        order == TextOrder::Same <==> a@ == b@,
        order == TextOrder::After <==> text_before(b@, a@),
{
    let x = a.as_bytes();
    let y = b.as_bytes();
    proof {
        encode_utf8_decode_utf8(a@);
        encode_utf8_decode_utf8(b@);
    }
    let mut k: usize = 0;
    while k < x.len() && k < y.len() && x[k] == y[k]
        invariant
            k <= x.len(),
            k <= y.len(),
            x@.subrange(0, k as int) == y@.subrange(0, k as int),
        decreases x.len() - k,
    {
        assert(x@.subrange(0, k + 1) =~= x@.subrange(0, k as int).push(x[k as int]));
        assert(y@.subrange(0, k + 1) =~= y@.subrange(0, k as int).push(y[k as int]));
        k += 1;
    }
    let order = if k == x.len() {
        if k == y.len() {
            assert(x@ =~= x@.subrange(0, k as int));
            assert(y@ =~= y@.subrange(0, k as int));
            TextOrder::Same
        } else {
            TextOrder::Before
        }
    } else if k == y.len() {
        assert(y@.subrange(0, k as int) == x@.subrange(0, k as int));
        TextOrder::After
    } else if x[k] < y[k] {
        TextOrder::Before
    } else {
        assert(y@.subrange(0, k as int) == x@.subrange(0, k as int));
        TextOrder::After
    };
    proof {
        lemma_not_before_itself(x@);
        if bytes_before(x@, y@) {
            lemma_before_one_way(x@, y@);
        }
        if bytes_before(y@, x@) {
            lemma_before_one_way(y@, x@);
        }
    }
    order
}

/// The characters of `needle` stand in `hay` from position `at` on.
pub open spec fn matches_at(hay: Seq<char>, needle: Seq<char>, at: int) -> bool {
    0 <= at && at + needle.len() <= hay.len() && hay.subrange(at, at + needle.len()) == needle
}

/// The first position from `from` on at which `needle` stands in `hay`
/// before position `to`, or `to` where it stands nowhere there.
pub open spec fn first_match(hay: Seq<char>, needle: Seq<char>, from: int, to: int) -> int
    decreases to - from,
{
    if from < 0 || from >= to || from + needle.len() > to || to > hay.len() {
        to
    } else if matches_at(hay, needle, from) {
        from
    } else {
        first_match(hay, needle, from + 1, to)
    }
}

/// The first match is not before the start of the search and ends before its
/// end, unless there is none.
pub proof fn lemma_first_match(hay: Seq<char>, needle: Seq<char>, from: int, to: int)
    requires
        0 <= from <= to <= hay.len(),
    ensures
        from <= first_match(hay, needle, from, to) <= to,
        first_match(hay, needle, from, to) < to ==> first_match(hay, needle, from, to) + needle.len()
            <= to && matches_at(hay, needle, first_match(hay, needle, from, to)),
    decreases to - from,
{
    if from < to && from + needle.len() <= to && !matches_at(hay, needle, from) {
        lemma_first_match(hay, needle, from + 1, to);
    }
}

/// Whether `needle` stands in `hay` from position `at` on.
pub fn is_match_at(hay: &Vec<char>, needle: &Vec<char>, at: usize) -> (found: bool)
    requires
        at + needle.len() <= hay.len(),
    ensures
        found == matches_at(hay@, needle@, at as int),
{
    let mut k: usize = 0;
    while k < needle.len()
        invariant
            k <= needle.len(),
            at + needle.len() <= hay.len(),
            forall|j: int| 0 <= j < k ==> hay[at + j] == needle[j],
        decreases needle.len() - k,
    {
        if hay[at + k] != needle[k] {
            proof {
                let part = hay@.subrange(at as int, at + needle.len());
                assert(part[k as int] == hay[at + k]);
            }
            return false;
        }
        k += 1;
    }
    assert(hay@.subrange(at as int, at + needle.len()) =~= needle@);
    true
}

/// The first position from `from` on at which `needle` stands in `hay`
/// before position `to`.
pub fn find_match(hay: &Vec<char>, needle: &Vec<char>, from: usize, to: usize) -> (at: usize)
    requires
        from <= to <= hay.len(),
        needle.len() > 0,
    ensures
        at == first_match(hay@, needle@, from as int, to as int),
        from <= at <= to,
{
    proof {
        lemma_first_match(hay@, needle@, from as int, to as int);
    }
    if needle.len() > to - from {
        return to;
    }
    let last: usize = to - needle.len();
    let mut at: usize = from;
    while at <= last
        invariant
            from <= at <= last + 1,
            last + needle.len() == to,
            needle.len() > 0,
            to <= hay.len(),
            first_match(hay@, needle@, at as int, to as int) == first_match(
                hay@,
                needle@,
                from as int,
                to as int,
            ),
        decreases last + 1 - at,
    {
        if is_match_at(hay, needle, at) {
            return at;
        }
        at += 1;
    }
    to
}

/// The first position from `from` up to `to` at which no white space stands,
/// or `to`.
pub open spec fn skip_blank(chars: Seq<char>, from: int, to: int) -> int
    decreases to - from,
{
    if from < 0 || from >= to || to > chars.len() || !is_whitespace_char(chars[from]) {
        if from < 0 || from >= to || to > chars.len() {
            to
        } else {
            from
        }
    } else {
        skip_blank(chars, from + 1, to)
    }
}

/// The position after the last character before `to`, down to `from`, that
/// is no white space, or `from`.
pub open spec fn skip_blank_back(chars: Seq<char>, from: int, to: int) -> int
    decreases to - from,
{
    if from < 0 || from >= to || to > chars.len() || !is_whitespace_char(chars[to - 1]) {
        if from < 0 || from >= to || to > chars.len() {
            from
        } else {
            to
        }
    } else {
        skip_blank_back(chars, from, to - 1)
    }
}

/// The part of a text from `from` to `to` without the white space at its
/// two ends, as a pair of positions.
pub open spec fn trimmed(chars: Seq<char>, from: int, to: int) -> (int, int) {
    let start = skip_blank(chars, from, to);
    (start, skip_blank_back(chars, start, to))
}

/// Skipping white space stays within the part.
pub proof fn lemma_skip_blank(chars: Seq<char>, from: int, to: int)
    requires
        0 <= from <= to <= chars.len(),
    ensures
        from <= skip_blank(chars, from, to) <= to,
        from <= skip_blank_back(chars, from, to) <= to,
    decreases to - from,
{
    if from < to {
        if is_whitespace_char(chars[from]) {
            lemma_skip_blank(chars, from + 1, to);
        }
        if is_whitespace_char(chars[to - 1]) {
            lemma_skip_blank(chars, from, to - 1);
        }
    }
}

/// The part of a text from `from` to `to` without the white space at its
/// two ends.
pub fn trim_range(chars: &Vec<char>, from: usize, to: usize) -> (range: (usize, usize))
    requires
        from <= to <= chars.len(),
    ensures
        (range.0 as int, range.1 as int) == trimmed(chars@, from as int, to as int),
        from <= range.0 <= range.1 <= to,
{
    proof {
        lemma_skip_blank(chars@, from as int, to as int);
    }
    let mut start: usize = from;
    while start < to && chars[start].is_whitespace()
        invariant
            from <= start <= to <= chars.len(),
            skip_blank(chars@, start as int, to as int) == skip_blank(chars@, from as int, to as int),
        decreases to - start,
    {
        start += 1;
    }
    proof {
        lemma_skip_blank(chars@, start as int, to as int);
    }
    let mut end: usize = to;
    while start < end && chars[end - 1].is_whitespace()
        invariant
            start <= end <= to <= chars.len(),
            skip_blank_back(chars@, start as int, end as int) == skip_blank_back(
                chars@,
                start as int,
                to as int,
            ),
        decreases end - start,
    {
        end -= 1;
    }
    (start, end)
}

/// Whether the part of a text from `from` to `to` is blank.
pub fn is_blank_range(chars: &Vec<char>, from: usize, to: usize) -> (blank: bool)
    requires
        from <= to <= chars.len(),
    ensures
        blank == is_blank(chars@.subrange(from as int, to as int)),
{
    let mut i: usize = from;
    while i < to
        invariant
            from <= i <= to <= chars.len(),
            forall|j: int| from <= j < i ==> is_whitespace_char(#[trigger] chars[j]),
        decreases to - i,
    {
        if !chars[i].is_whitespace() {
            proof {
                let part = chars@.subrange(from as int, to as int);
                assert(part[i - from] == chars[i as int]);
            }
            return false;
        }
        i += 1;
    }
    proof {
        let part = chars@.subrange(from as int, to as int);
        assert forall|j: int| 0 <= j < part.len() implies is_whitespace_char(#[trigger] part[j]) by {
            assert(part[j] == chars[j + from]);
        }
    }
    true
}

/// A number in decimal digits, with a minus sign where it is negative.
pub open spec fn signed_decimal(n: int) -> Seq<char> {
    if n < 0 {
        seq!['-'] + decimal((-n) as nat)
    } else {
        decimal(n as nat)
    }
}

/// Writes a number in decimal digits, with its sign where it is negative, at
/// the end of a text.
pub fn push_signed_decimal(out: &mut String, n: i64)
    ensures
        final(out)@ == old(out)@ + signed_decimal(n as int),
{
    if n < 0 {
        proof {
            reveal_strlit("-");
            assert("-"@ =~= seq!['-']);
        }
        out.append("-");
        let magnitude: u64 = (-(n as i128)) as u64;
        push_decimal(out, magnitude);
        assert(final(out)@ =~= old(out)@ + signed_decimal(n as int));
    } else {
        push_decimal(out, n as u64);
    }
}

/// Where the search finds nothing, `needle` stands nowhere in the part that
/// was searched.
pub proof fn lemma_no_match(hay: Seq<char>, needle: Seq<char>, from: int, to: int, at: int)
    requires
        0 <= from <= at,
        at < to <= hay.len(),
        at + needle.len() <= to,
        first_match(hay, needle, from, to) == to,
    ensures
        !matches_at(hay, needle, at),
    decreases to - from,
{
    if from < at {
        lemma_first_match(hay, needle, from + 1, to);
        lemma_no_match(hay, needle, from + 1, to, at);
    }
}

/// `needle` stands somewhere in `hay`. The empty text stands in every text.
pub open spec fn holds_text(hay: Seq<char>, needle: Seq<char>) -> bool {
    exists|at: int| matches_at(hay, needle, at)
}

/// Whether `needle` stands somewhere in `hay`.
pub fn contains_text(hay: &Vec<char>, needle: &Vec<char>) -> (held: bool)
    ensures
        held == holds_text(hay@, needle@),
{
    if needle.len() == 0 {
        assert(hay@.subrange(0, 0) =~= needle@);
        assert(matches_at(hay@, needle@, 0));
        return true;
    }
    let at = find_match(hay, needle, 0, hay.len());
    proof {
        lemma_first_match(hay@, needle@, 0, hay.len() as int);
        if at >= hay.len() {
            assert forall|p: int| !matches_at(hay@, needle@, p) by {
                if 0 <= p && p + needle.len() <= hay.len() {
                    lemma_no_match(hay@, needle@, 0, hay.len() as int, p);
                }
            }
        }
    }
    at < hay.len()
}

/// The text with each occurrence of one character replaced by another.
pub open spec fn replaced(text: Seq<char>, from: char, to: char) -> Seq<char> {
    text.map_values(
        |c: char|
            if c == from {
                to
            } else {
                c
            },
    )
}

/// Replaces each occurrence of the character `from` in a text by `to`.
pub fn replace_char(text: &str, from: char, to: char) -> (changed: String)
    ensures
        changed@ == replaced(text@, from, to),
{
    let chars = to_chars(text);
    let mut changed = String::new();
    let mut i: usize = 0;
    while i < chars.len()
        invariant
            i <= chars.len(),
            chars@ == text@,
            changed@ == replaced(text@.take(i as int), from, to),
        decreases chars.len() - i,
    {
        let c = chars[i];
        changed.push(
            if c == from {
                to
            } else {
                c
            },
        );
        proof {
            assert(replaced(text@.take(i + 1), from, to) =~= replaced(text@.take(i as int), from, to).push(
                if c == from {
                    to
                } else {
                    c
                },
            ));
        }
        i += 1;
    }
    proof {
        assert(text@.take(chars.len() as int) =~= text@);
    }
    changed
}

/// The first `limit` characters of a text, or all of a shorter text.
pub open spec fn leading(text: Seq<char>, limit: nat) -> Seq<char> {
    if text.len() <= limit {
        text
    } else {
        text.take(limit as int)
    }
}

/// Cuts a text to its first `limit` characters.
pub fn first_chars(text: &str, limit: usize) -> (kept: String)
    ensures
        kept@ == leading(text@, limit as nat),
{
    if text.unicode_len() <= limit {
        text.to_owned()
    } else {
        let part = text.substring_char(0, limit);
        assert(part@ =~= text@.take(limit as int));
        part.to_owned()
    }
}

} // verus!
