//! Byte strings.
//!
//! Paths, URLs, header names and bodies are all sequences of bytes here. This
//! module holds the vocabulary that the rest of the crate states its contracts
//! in (prefixes, occurrences, ASCII case folding, replacement) together with
//! the executable functions that compute them.

use vstd::prelude::*;
use vstd::utf8::{encode_scalar, encode_utf8};

verus! {

pub const SLASH: u8 = 47;

pub const PERCENT: u8 = 37;

pub const QUESTION_MARK: u8 = 63;

pub const DOT: u8 = 46;

pub const LINE_FEED: u8 = 10;

pub const LESS_THAN: u8 = 60;

/// `needle` stands in `hay` at offset `at`.
pub open spec fn occurs_at(hay: Seq<u8>, needle: Seq<u8>, at: int) -> bool {
    &&& 0 <= at
    &&& at + needle.len() <= hay.len()
    &&& hay.subrange(at, at + needle.len()) == needle
}

/// `needle` stands somewhere in `hay`.
pub open spec fn contains(hay: Seq<u8>, needle: Seq<u8>) -> bool {
    exists|at: int| occurs_at(hay, needle, at)
}

/// `at` is the leftmost offset at which `needle` stands in `hay`.
pub open spec fn is_first_occurrence(hay: Seq<u8>, needle: Seq<u8>, at: int) -> bool {
    &&& occurs_at(hay, needle, at)
    &&& forall|earlier: int| 0 <= earlier < at ==> !occurs_at(hay, needle, earlier)
}

/// The leftmost offset of `needle` in `hay`; meaningful when `contains(hay, needle)`.
pub open spec fn first_occurrence(hay: Seq<u8>, needle: Seq<u8>) -> int {
    choose|at: int| is_first_occurrence(hay, needle, at)
}

/// The leftmost occurrence is unique, so any witness is `first_occurrence`.
pub proof fn lemma_first_occurrence_unique(hay: Seq<u8>, needle: Seq<u8>, at: int)
    requires
        is_first_occurrence(hay, needle, at),
    ensures
        first_occurrence(hay, needle) == at,
        contains(hay, needle),
{
    let chosen = first_occurrence(hay, needle);
    assert(is_first_occurrence(hay, needle, chosen));
    if chosen < at {
        assert(!occurs_at(hay, needle, chosen));
    }
    if at < chosen {
        assert(!occurs_at(hay, needle, at));
    }
}

/// A text that holds `needle` has a leftmost occurrence of it, at or before
/// any offset at which `needle` stands.
pub proof fn lemma_has_first_occurrence(hay: Seq<u8>, needle: Seq<u8>, at: int)
    requires
        occurs_at(hay, needle, at),
    ensures
        is_first_occurrence(hay, needle, first_occurrence(hay, needle)),
        first_occurrence(hay, needle) <= at,
    decreases at,
{
    if exists|earlier: int| 0 <= earlier < at && occurs_at(hay, needle, earlier) {
        let earlier = choose|earlier: int| 0 <= earlier < at && occurs_at(hay, needle, earlier);
        lemma_has_first_occurrence(hay, needle, earlier);
    } else {
        assert(is_first_occurrence(hay, needle, at));
        lemma_first_occurrence_unique(hay, needle, at);
    }
}

/// An occurrence inside the middle part of a concatenation is an occurrence in the whole.
pub proof fn lemma_contains_in_middle(
    before: Seq<u8>,
    middle: Seq<u8>,
    after: Seq<u8>,
    needle: Seq<u8>,
)
    requires
        contains(middle, needle),
    ensures
        contains(before + middle + after, needle),
{
    let at = choose|at: int| occurs_at(middle, needle, at);
    let whole = before + middle + after;
    let shifted = before.len() + at;
    assert(whole.subrange(shifted, shifted + needle.len()) =~= middle.subrange(
        at,
        at + needle.len(),
    ));
    assert(occurs_at(whole, needle, shifted));
}

/// `needle` stands in `hay` at `at` and at no other offset.
pub open spec fn is_only_occurrence(hay: Seq<u8>, needle: Seq<u8>, at: int) -> bool {
    &&& occurs_at(hay, needle, at)
    &&& forall|other: int| occurs_at(hay, needle, other) ==> other == at
}

/// `needle` stands in `hay` exactly once.
pub open spec fn occurs_once(hay: Seq<u8>, needle: Seq<u8>) -> bool {
    exists|at: int| is_only_occurrence(hay, needle, at)
}

/// The byte `b` stands in `s` at no offset but `at`. With an `at` outside
/// `s` this says that `b` is no byte of `s`.
pub open spec fn byte_only_at(s: Seq<u8>, b: u8, at: int) -> bool {
    forall|i: int| 0 <= i < s.len() && #[trigger] s[i] == b ==> i == at
}

/// An occurrence of a needle in two texts with a separator between them,
/// where the needle does not hold the separator, lies in one of the two.
pub proof fn lemma_occurrence_beside_separator(
    left: Seq<u8>,
    sep: u8,
    right: Seq<u8>,
    needle: Seq<u8>,
    at: int,
)
    requires
        occurs_at(left + seq![sep] + right, needle, at),
        byte_only_at(needle, sep, -1),
    ensures
        occurs_at(left, needle, at) || occurs_at(right, needle, at - left.len() - 1),
{
    let whole = left + seq![sep] + right;
    let found = whole.subrange(at, at + needle.len());
    if at + needle.len() <= left.len() {
        assert(left.subrange(at, at + needle.len()) =~= found);
    } else if at > left.len() {
        let shifted = at - left.len() - 1;
        assert(right.subrange(shifted, shifted + needle.len()) =~= found);
    } else {
        let inside = left.len() - at;
        assert(found[inside] == whole[left.len() as int]);
        assert(needle[inside] == sep);
    }
}

/// An occurrence in one of two texts is an occurrence in the two with a
/// separator between them.
pub proof fn lemma_occurrence_carries_over(
    left: Seq<u8>,
    sep: u8,
    right: Seq<u8>,
    needle: Seq<u8>,
    at: int,
)
    ensures
        occurs_at(left, needle, at) ==> occurs_at(left + seq![sep] + right, needle, at),
        occurs_at(right, needle, at) ==> occurs_at(
            left + seq![sep] + right,
            needle,
            left.len() + 1 + at,
        ),
{
    let whole = left + seq![sep] + right;
    if occurs_at(left, needle, at) {
        assert(whole.subrange(at, at + needle.len()) =~= left.subrange(at, at + needle.len()));
    }
    if occurs_at(right, needle, at) {
        let shifted = left.len() + 1 + at;
        assert(whole.subrange(shifted, shifted + needle.len()) =~= right.subrange(
            at,
            at + needle.len(),
        ));
    }
}

/// Where a needle stands, the text holds the needle's bytes.
pub proof fn lemma_occurrence_bytes(hay: Seq<u8>, needle: Seq<u8>, at: int, inside: int)
    requires
        occurs_at(hay, needle, at),
        0 <= inside < needle.len(),
    ensures
        hay[at + inside] == needle[inside],
{
    assert(hay.subrange(at, at + needle.len())[inside] == hay[at + inside]);
}

/// What stands in a part of a text stands in the text, further on by where
/// the part begins.
pub proof fn lemma_occurrence_in_part(
    hay: Seq<u8>,
    from: int,
    to: int,
    needle: Seq<u8>,
    at: int,
)
    requires
        0 <= from <= to <= hay.len(),
        occurs_at(hay.subrange(from, to), needle, at),
    ensures
        occurs_at(hay, needle, from + at),
{
    assert(hay.subrange(from + at, from + at + needle.len()) =~= hay.subrange(from, to).subrange(
        at,
        at + needle.len(),
    ));
}

/// Where a byte of the needle stands at one offset of a text only, that
/// offset fixes where the needle can stand.
pub proof fn lemma_occurrence_is_anchored(
    hay: Seq<u8>,
    needle: Seq<u8>,
    at: int,
    inside: int,
    anchor: int,
)
    requires
        occurs_at(hay, needle, at),
        0 <= inside < needle.len(),
        byte_only_at(hay, needle[inside], anchor),
    ensures
        at + inside == anchor,
{
    assert(hay.subrange(at, at + needle.len())[inside] == hay[at + inside]);
}

/// A byte that stands at one offset of a text only, and nowhere in a
/// second text, stands at that offset only where the second follows the first.
pub proof fn lemma_byte_only_at_front(front: Seq<u8>, back: Seq<u8>, b: u8, at: int)
    requires
        byte_only_at(front, b, at),
        byte_only_at(back, b, -1),
    ensures
        byte_only_at(front + back, b, at),
{
    assert forall|i: int| 0 <= i < (front + back).len() && #[trigger] (front + back)[i]
        == b implies i == at by {
        if i >= front.len() {
            assert(back[i - front.len()] == b);
        } else {
            assert(front[i] == b);
        }
    }
}

proof fn lemma_scalar_outside_ascii(c: u32)
    by (bit_vector)
    requires
        c >= 0x80,
    ensures
        (0xC0u8 | ((c >> 6) & 0x1F) as u8) >= 0x80,
        (0xE0u8 | ((c >> 12) & 0x0F) as u8) >= 0x80,
        (0xF0u8 | ((c >> 18) & 0x7) as u8) >= 0x80,
        (0x80u8 | (c & 0x3F) as u8) >= 0x80,
        (0x80u8 | ((c >> 6) & 0x3F) as u8) >= 0x80,
        (0x80u8 | ((c >> 12) & 0x3F) as u8) >= 0x80,
{
}

/// The UTF-8 form of characters outside ASCII holds no ASCII byte.
pub proof fn lemma_bytes_outside_ascii(chars: Seq<char>)
    requires
        forall|i: int| 0 <= i < chars.len() ==> (#[trigger] chars[i]) as u32 >= 0x80,
    ensures
        forall|i: int|
            0 <= i < encode_utf8(chars).len() ==> #[trigger] encode_utf8(chars)[i] >= 0x80,
    decreases chars.len(),
{
    if chars.len() > 0 {
        let c = chars[0] as u32;
        lemma_scalar_outside_ascii(c);
        lemma_bytes_outside_ascii(chars.drop_first());
        let head = encode_scalar(c);
        let tail = encode_utf8(chars.drop_first());
        assert(encode_utf8(chars) == head + tail);
        assert forall|i: int| 0 <= i < head.len() implies #[trigger] head[i] >= 0x80 by {}
        assert forall|i: int| 0 <= i < encode_utf8(chars).len() implies #[trigger] encode_utf8(
            chars,
        )[i] >= 0x80 by {
            if i >= head.len() {
                assert(encode_utf8(chars)[i] == tail[i - head.len()]);
            } else {
                assert(encode_utf8(chars)[i] == head[i]);
            }
        }
    }
}

/// The lower-case form of one byte, where only `A`..`Z` change.
pub open spec fn lower_byte(b: u8) -> u8 {
    if 65 <= b <= 90 {
        (b + 32) as u8
    } else {
        b
    }
}

/// The ASCII lower-case form of a byte string.
pub open spec fn ascii_lower(s: Seq<u8>) -> Seq<u8> {
    Seq::new(s.len(), |i: int| lower_byte(s[i]))
}

/// `s` with every trailing `b` removed.
pub open spec fn trim_end(s: Seq<u8>, b: u8) -> Seq<u8>
    decreases s.len(),
{
    if s.len() > 0 && s.last() == b {
        trim_end(s.drop_last(), b)
    } else {
        s
    }
}

/// `s` with every leading `b` removed.
pub open spec fn trim_start(s: Seq<u8>, b: u8) -> Seq<u8>
    decreases s.len(),
{
    if s.len() > 0 && s.first() == b {
        trim_start(s.drop_first(), b)
    } else {
        s
    }
}

/// The offset just behind the last `sep` in `s`, or 0 where `s` holds none.
pub open spec fn last_segment_start(s: Seq<u8>, sep: u8) -> int
    decreases s.len(),
{
    if s.len() == 0 {
        0
    } else if s.last() == sep {
        s.len() as int
    } else {
        last_segment_start(s.drop_last(), sep)
    }
}

/// What follows the last `sep` in `s`; all of `s` where it holds none.
pub open spec fn last_segment(s: Seq<u8>, sep: u8) -> Seq<u8> {
    s.skip(last_segment_start(s, sep))
}

/// `s` with every occurrence of `from` replaced by `to`, scanning from the
/// left and never looking into what a replacement produced. An empty `from`
/// occurs nowhere.
pub open spec fn replace_all(s: Seq<u8>, from: Seq<u8>, to: Seq<u8>) -> Seq<u8>
    decreases s.len(),
{
    if from.len() == 0 || s.len() < from.len() {
        s
    } else if from.is_prefix_of(s) {
        to + replace_all(s.skip(from.len() as int), from, to)
    } else {
        seq![s[0]] + replace_all(s.skip(1), from, to)
    }
}

pub fn starts_with(text: &[u8], prefix: &[u8]) -> (r: bool)
    ensures
        r == prefix@.is_prefix_of(text@),
{
    if prefix.len() > text.len() {
        return false;
    }
    let mut i: usize = 0;
    while i < prefix.len()
        invariant
            i <= prefix.len() <= text.len(),
            forall|j: int| 0 <= j < i ==> text@[j] == prefix@[j],
        decreases prefix.len() - i,
    {
        if text[i] != prefix[i] {
            return false;
        }
        i += 1;
    }
    assert(text@.subrange(0, prefix@.len() as int) =~= prefix@);
    true
}

pub fn ends_with(text: &[u8], suffix: &[u8]) -> (r: bool)
    ensures
        r == suffix@.is_suffix_of(text@),
{
    if suffix.len() > text.len() {
        return false;
    }
    let shift: usize = text.len() - suffix.len();
    let mut i: usize = 0;
    while i < suffix.len()
        invariant
            i <= suffix.len() <= text.len(),
            shift == text.len() - suffix.len(),
            forall|j: int| 0 <= j < i ==> text@[shift + j] == suffix@[j],
        decreases suffix.len() - i,
    {
        if text[shift + i] != suffix[i] {
            assert(text@.subrange(shift as int, text@.len() as int)[i as int] == text@[shift + i]);
            return false;
        }
        i += 1;
    }
    assert(text@.subrange(shift as int, text@.len() as int) =~= suffix@);
    true
}

pub fn bytes_eq(a: &[u8], b: &[u8]) -> (r: bool)
    ensures
        r == (a@ == b@),
{
    if a.len() != b.len() {
        return false;
    }
    let mut i: usize = 0;
    while i < a.len()
        invariant
            i <= a.len() == b.len(),
            forall|j: int| 0 <= j < i ==> a@[j] == b@[j],
        decreases a.len() - i,
    {
        if a[i] != b[i] {
            return false;
        }
        i += 1;
    }
    assert(a@ =~= b@);
    true
}

/// Whether `needle` stands in `hay` at offset `at`.
pub fn matches_at(hay: &[u8], needle: &[u8], at: usize) -> (r: bool)
    ensures
        r == occurs_at(hay@, needle@, at as int),
{
    if at > hay.len() || needle.len() > hay.len() - at {
        return false;
    }
    let mut i: usize = 0;
    while i < needle.len()
        invariant
            i <= needle.len(),
            at + needle.len() <= hay.len(),
            forall|j: int| 0 <= j < i ==> hay@[at + j] == needle@[j],
        decreases needle.len() - i,
    {
        if hay[at + i] != needle[i] {
            assert(hay@.subrange(at as int, at + needle@.len())[i as int] == hay@[at + i]);
            return false;
        }
        i += 1;
    }
    assert(hay@.subrange(at as int, at + needle@.len()) =~= needle@);
    true
}

/// The leftmost offset at which `needle` stands in `hay`.
pub fn find(hay: &[u8], needle: &[u8]) -> (r: Option<usize>)
    ensures
        r is Some <==> contains(hay@, needle@),
        r matches Some(at) ==> is_first_occurrence(hay@, needle@, at as int) && at
            == first_occurrence(hay@, needle@),
{
    if needle.len() > hay.len() {
        return None;
    }
    let last: usize = hay.len() - needle.len();
    let mut at: usize = 0;
    while at < last
        invariant
            at <= last,
            last == hay.len() - needle.len(),
            forall|earlier: int| 0 <= earlier < at ==> !occurs_at(hay@, needle@, earlier),
        decreases last - at,
    {
        if matches_at(hay, needle, at) {
            proof {
                lemma_first_occurrence_unique(hay@, needle@, at as int);
            }
            return Some(at);
        }
        at += 1;
    }
    if matches_at(hay, needle, at) {
        proof {
            lemma_first_occurrence_unique(hay@, needle@, at as int);
        }
        Some(at)
    } else {
        None
    }
}

pub fn contains_bytes(hay: &[u8], needle: &[u8]) -> (r: bool)
    ensures
        r == contains(hay@, needle@),
{
    find(hay, needle).is_some()
}

pub fn to_lower_byte(b: u8) -> (r: u8)
    ensures
        r == lower_byte(b),
{
    if 65 <= b && b <= 90 {
        b + 32
    } else {
        b
    }
}

pub fn to_ascii_lower(s: &[u8]) -> (r: Vec<u8>)
    ensures
        r@ == ascii_lower(s@),
{
    let mut out: Vec<u8> = Vec::new();
    let mut i: usize = 0;
    while i < s.len()
        invariant
            i <= s.len(),
            out@.len() == i,
            forall|j: int| 0 <= j < i ==> out@[j] == lower_byte(s@[j]),
        decreases s.len() - i,
    {
        out.push(to_lower_byte(s[i]));
        i += 1;
    }
    assert(out@ =~= ascii_lower(s@));
    out
}

/// Appends `part` to `out`.
pub fn append(out: &mut Vec<u8>, part: &[u8])
    ensures
        final(out)@ == old(out)@ + part@,
{
    let mut i: usize = 0;
    while i < part.len()
        invariant
            i <= part.len(),
            out@ == old(out)@ + part@.subrange(0, i as int),
        decreases part.len() - i,
    {
        out.push(part[i]);
        i += 1;
        assert(part@.subrange(0, i as int) =~= part@.subrange(0, i - 1).push(part@[i - 1]));
    }
    assert(part@.subrange(0, part@.len() as int) =~= part@);
}

/// A fresh copy of `s`.
pub fn copy_of(s: &[u8]) -> (r: Vec<u8>)
    ensures
        r@ == s@,
{
    let mut out: Vec<u8> = Vec::new();
    append(&mut out, s);
    out
}

pub fn trimmed_end(s: &[u8], b: u8) -> (r: &[u8])
    ensures
        r@ == trim_end(s@, b),
{
    let mut end: usize = s.len();
    assert(s@.subrange(0, s@.len() as int) =~= s@);
    while end > 0 && s[end - 1] == b
        invariant
            end <= s.len(),
            trim_end(s@, b) == trim_end(s@.subrange(0, end as int), b),
        decreases end,
    {
        assert(s@.subrange(0, end as int).drop_last() =~= s@.subrange(0, end - 1));
        end -= 1;
    }
    vstd::slice::slice_subrange(s, 0, end)
}

pub fn trimmed_start(s: &[u8], b: u8) -> (r: &[u8])
    ensures
        r@ == trim_start(s@, b),
{
    let mut start: usize = 0;
    assert(s@.subrange(0, s@.len() as int) =~= s@);
    while start < s.len() && s[start] == b
        invariant
            start <= s.len(),
            trim_start(s@, b) == trim_start(s@.subrange(start as int, s@.len() as int), b),
        decreases s.len() - start,
    {
        assert(s@.subrange(start as int, s@.len() as int).drop_first() =~= s@.subrange(
            start + 1,
            s@.len() as int,
        ));
        start += 1;
    }
    vstd::slice::slice_subrange(s, start, s.len())
}

/// What follows the last `sep` in `s`.
pub fn last_segment_of(s: &[u8], sep: u8) -> (r: &[u8])
    ensures
        r@ == last_segment(s@, sep),
{
    let mut end: usize = s.len();
    assert(s@.subrange(0, s@.len() as int) =~= s@);
    while end > 0 && s[end - 1] != sep
        invariant
            end <= s.len(),
            last_segment_start(s@, sep) == last_segment_start(s@.subrange(0, end as int), sep),
        decreases end,
    {
        assert(s@.subrange(0, end as int).drop_last() =~= s@.subrange(0, end - 1));
        end -= 1;
    }
    assert(last_segment_start(s@, sep) == end);
    assert(s@.skip(end as int) =~= s@.subrange(end as int, s@.len() as int));
    vstd::slice::slice_subrange(s, end, s.len())
}

proof fn lemma_replace_step(s: Seq<u8>, from: Seq<u8>, to: Seq<u8>, at: int)
    requires
        from.len() > 0,
        0 <= at <= s.len(),
    ensures
        s.len() - at < from.len() ==> replace_all(s.skip(at), from, to) == s.skip(at),
        occurs_at(s, from, at) ==> replace_all(s.skip(at), from, to) == to + replace_all(
            s.skip(at + from.len()),
            from,
            to,
        ),
        s.len() - at >= from.len() && !occurs_at(s, from, at) ==> replace_all(
            s.skip(at),
            from,
            to,
        ) == seq![s[at]] + replace_all(s.skip(at + 1), from, to),
{
    let rest = s.skip(at);
    if rest.len() >= from.len() {
        assert(rest.subrange(0, from.len() as int) =~= s.subrange(at, at + from.len()));
        assert(rest.skip(from.len() as int) =~= s.skip(at + from.len()));
        assert(rest.skip(1) =~= s.skip(at + 1));
    }
}

/// `s` with every occurrence of `from` replaced by `to`; `s` itself where
/// `from` is empty.
pub fn replaced(s: &[u8], from: &[u8], to: &[u8]) -> (r: Vec<u8>)
    ensures
        r@ == replace_all(s@, from@, to@),
{
    if from.len() == 0 {
        return copy_of(s);
    }
    let mut out: Vec<u8> = Vec::new();
    let mut at: usize = 0;
    assert(s@.skip(0) =~= s@);
    while at < s.len()
        invariant
            at <= s.len(),
            from@.len() > 0,
            out@ + replace_all(s@.skip(at as int), from@, to@) == replace_all(s@, from@, to@),
        decreases s.len() - at,
    {
        proof {
            lemma_replace_step(s@, from@, to@, at as int);
        }
        let ghost before = out@;
        let ghost tail = replace_all(s@.skip(at as int), from@, to@);
        if matches_at(s, from, at) {
            append(&mut out, to);
            at += from.len();
            assert(out@ + replace_all(s@.skip(at as int), from@, to@) =~= before + tail);
        } else if s.len() - at < from.len() {
            append(&mut out, vstd::slice::slice_subrange(s, at, s.len()));
            assert(s@.subrange(at as int, s@.len() as int) =~= s@.skip(at as int));
            at = s.len();
            proof {
                lemma_replace_step(s@, from@, to@, at as int);
            }
            assert(out@ + replace_all(s@.skip(at as int), from@, to@) =~= before + tail);
        } else {
            out.push(s[at]);
            at += 1;
            assert(out@ + replace_all(s@.skip(at as int), from@, to@) =~= before + tail);
        }
    }
    proof {
        lemma_replace_step(s@, from@, to@, at as int);
        assert(out@ + s@.skip(at as int) =~= out@);
    }
    out
}

/// The decimal digits of `n`, without leading zeros.
pub open spec fn decimal(n: nat) -> Seq<u8>
    decreases n,
{
    if n < 10 {
        seq![(48 + n) as u8]
    } else {
        decimal(n / 10).push((48 + n % 10) as u8)
    }
}

/// Ten to the power of `digits`.
pub open spec fn pow10(digits: nat) -> nat
    decreases digits,
{
    if digits == 0 {
        1
    } else {
        10 * pow10((digits - 1) as nat)
    }
}

/// A number below ten to the power of `digits` has at most `digits` digits.
pub proof fn lemma_decimal_length(n: nat, digits: nat)
    requires
        digits >= 1,
        n < pow10(digits),
    ensures
        1 <= decimal(n).len() <= digits,
    decreases n,
{
    assert(pow10(digits) == 10 * pow10((digits - 1) as nat));
    if n >= 10 {
        if digits == 1 {
            assert(pow10(0) == 1);
        } else {
            assert(n / 10 < pow10((digits - 1) as nat));
            lemma_decimal_length(n / 10, (digits - 1) as nat);
        }
    }
}

/// A number that fits in 32 bits has at most ten digits.
pub proof fn lemma_decimal_is_short(n: nat)
    requires
        n <= u32::MAX,
    ensures
        1 <= decimal(n).len() <= 10,
{
    reveal_with_fuel(pow10, 11);
    assert(pow10(10) == 10000000000);
    lemma_decimal_length(n, 10);
}

/// Appends the decimal digits of `n` to `out`.
pub fn push_decimal(out: &mut Vec<u8>, n: u64)
    ensures
        final(out)@ == old(out)@ + decimal(n as nat),
    decreases n,
{
    if n >= 10 {
        push_decimal(out, n / 10);
    }
    let digit: u8 = (48 + n % 10) as u8;
    out.push(digit);
    assert(out@ =~= old(out)@ + decimal(n as nat));
}

/// The offset of the first `sep` in `s`; the length of `s` where it holds none.
pub open spec fn first_sep(s: Seq<u8>, sep: u8) -> int
    decreases s.len(),
{
    if s.len() == 0 || s[0] == sep {
        0
    } else {
        1 + first_sep(s.skip(1), sep)
    }
}

/// The pieces into which the separators cut `s`. There is always at least
/// one piece, and a piece may be empty.
pub open spec fn split(s: Seq<u8>, sep: u8) -> Seq<Seq<u8>>
    decreases s.len(),
{
    let cut = first_sep(s, sep);
    if cut < 0 || cut >= s.len() {
        seq![s]
    } else {
        seq![s.take(cut)] + split(s.skip(cut + 1), sep)
    }
}

/// The pieces put together again, with `sep` between each two.
pub open spec fn joined(pieces: Seq<Seq<u8>>, sep: u8) -> Seq<u8>
    decreases pieces.len(),
{
    if pieces.len() == 0 {
        Seq::empty()
    } else if pieces.len() == 1 {
        pieces[0]
    } else {
        joined(pieces.drop_last(), sep) + seq![sep] + pieces.last()
    }
}

/// `s` without the copies of `prefix` that it begins with.
pub open spec fn without_leading(s: Seq<u8>, prefix: Seq<u8>) -> Seq<u8>
    decreases s.len(),
{
    if prefix.len() > 0 && prefix.is_prefix_of(s) {
        without_leading(s.skip(prefix.len() as int), prefix)
    } else {
        s
    }
}

pub open spec fn is_digit(b: u8) -> bool {
    48 <= b <= 57
}

pub open spec fn all_digits(s: Seq<u8>) -> bool {
    forall|i: int| 0 <= i < s.len() ==> is_digit(#[trigger] s[i])
}

/// The number that a run of decimal digits stands for.
pub open spec fn digits_value(s: Seq<u8>) -> nat
    decreases s.len(),
{
    if s.len() == 0 {
        0
    } else {
        digits_value(s.drop_last()) * 10 + (if is_digit(s.last()) {
            (s.last() - 48) as nat
        } else {
            0
        })
    }
}

/// The number that `s` is read as where a number of at most `max` is
/// expected: one or more decimal digits, which a `+` may precede. Anything
/// else, and any number above `max`, is no number.
pub open spec fn parsed_number(s: Seq<u8>, max: nat) -> Option<nat> {
    let digits = if s.len() > 0 && s[0] == 43 {
        s.skip(1)
    } else {
        s
    };
    if digits.len() > 0 && all_digits(digits) && digits_value(digits) <= max {
        Some(digits_value(digits))
    } else {
        None
    }
}

pub proof fn lemma_digits_value_grows(s: Seq<u8>, upto: int)
    requires
        0 <= upto <= s.len(),
    ensures
        digits_value(s.take(upto)) <= digits_value(s),
    decreases s.len(),
{
    if upto < s.len() {
        lemma_digits_value_grows(s.drop_last(), upto);
        assert(s.drop_last().take(upto) =~= s.take(upto));
    } else {
        assert(s.take(upto) =~= s);
    }
}

/// The byte string that an optional value holds, if it holds one.
pub open spec fn option_view(value: Option<Vec<u8>>) -> Option<Seq<u8>> {
    match value {
        Some(bytes) => Some(bytes@),
        None => None,
    }
}

/// The byte strings that a list holds, in order.
pub open spec fn views(items: Seq<Vec<u8>>) -> Seq<Seq<u8>> {
    Seq::new(items.len(), |i: int| items[i]@)
}

/// Cuts `s` at every `sep`.
pub fn split_bytes(s: &[u8], sep: u8) -> (pieces: Vec<Vec<u8>>)
    ensures
        views(pieces@) == split(s@, sep),
        pieces@.len() >= 1,
{
    let mut pieces: Vec<Vec<u8>> = Vec::new();
    let mut start: usize = 0;
    let mut i: usize = 0;
    assert(s@.skip(0) =~= s@);
    assert(views(pieces@) =~= Seq::<Seq<u8>>::empty());
    while i < s.len()
        invariant
            start <= i <= s.len(),
            views(pieces@) + split(s@.skip(start as int), sep) == split(s@, sep),
            first_sep(s@.skip(start as int), sep) == (i - start) + first_sep(s@.skip(i as int), sep),
        decreases s.len() - i,
    {
        let ghost rest = s@.skip(start as int);
        let ghost done = views(pieces@);
        assert(s@.skip(i as int)[0] == s@[i as int]);
        assert(s@.skip(i as int).skip(1) =~= s@.skip(i + 1));
        if s[i] == sep {
            let piece = copy_of(vstd::slice::slice_subrange(s, start, i));
            proof {
                assert(first_sep(rest, sep) == i - start);
                assert(rest.take(i - start) =~= piece@);
                assert(rest.skip(i - start + 1) =~= s@.skip(i + 1));
            }
            pieces.push(piece);
            assert(views(pieces@) =~= done.push(piece@));
            start = i + 1;
            assert(views(pieces@) + split(s@.skip(start as int), sep) =~= done + split(
                rest,
                sep,
            ));
        }
        i += 1;
    }
    let piece = copy_of(vstd::slice::slice_subrange(s, start, s.len()));
    proof {
        let rest = s@.skip(start as int);
        assert(s@.skip(s@.len() as int).len() == 0);
        assert(first_sep(rest, sep) == rest.len());
        assert(piece@ =~= rest);
        assert(split(rest, sep) =~= seq![rest]);
    }
    let ghost done = views(pieces@);
    pieces.push(piece);
    assert(views(pieces@) =~= done.push(piece@));
    pieces
}

/// `s` without the copies of `prefix` that it begins with.
pub fn strip_leading<'a>(s: &'a [u8], prefix: &[u8]) -> (rest: &'a [u8])
    ensures
        rest@ == without_leading(s@, prefix@),
{
    let mut start: usize = 0;
    assert(s@.skip(0) =~= s@);
    if prefix.len() == 0 {
        return s;
    }
    while matches_at(s, prefix, start)
        invariant
            start <= s.len(),
            prefix@.len() > 0,
            without_leading(s@, prefix@) == without_leading(s@.skip(start as int), prefix@),
        decreases s.len() - start,
    {
        let ghost rest = s@.skip(start as int);
        assert(rest.subrange(0, prefix@.len() as int) =~= s@.subrange(
            start as int,
            start + prefix@.len(),
        ));
        assert(rest.skip(prefix@.len() as int) =~= s@.skip(start + prefix@.len()));
        start += prefix.len();
    }
    proof {
        let rest = s@.skip(start as int);
        if prefix@.len() <= rest.len() {
            assert(rest.subrange(0, prefix@.len() as int) =~= s@.subrange(
                start as int,
                start + prefix@.len(),
            ));
        }
        assert(rest =~= s@.subrange(start as int, s@.len() as int));
    }
    vstd::slice::slice_subrange(s, start, s.len())
}

/// Reads `s` as a number of at most `max`.
pub fn parse_number(s: &[u8], max: u32) -> (number: Option<u32>)
    ensures
        number is Some == parsed_number(s@, max as nat) is Some,
        number matches Some(n) ==> parsed_number(s@, max as nat) == Some(n as nat),
{
    let digits = if s.len() > 0 && s[0] == 43 {
        vstd::slice::slice_subrange(s, 1, s.len())
    } else {
        s
    };
    assert(s@.len() > 0 && s@[0] == 43 ==> digits@ =~= s@.skip(1));
    if digits.len() == 0 {
        return None;
    }
    let mut value: u64 = 0;
    let mut i: usize = 0;
    assert(digits@.take(0) =~= Seq::<u8>::empty());
    while i < digits.len()
        invariant
            i <= digits.len(),
            digits@.len() > 0,
            digits@ == (if s@.len() > 0 && s@[0] == 43 {
                s@.skip(1)
            } else {
                s@
            }),
            all_digits(digits@.take(i as int)),
            value == digits_value(digits@.take(i as int)),
            value <= max,
        decreases digits.len() - i,
    {
        let b: u8 = digits[i];
        let ghost seen = digits@.take(i + 1);
        assert(seen.drop_last() =~= digits@.take(i as int));
        assert(seen.last() == b);
        if !(48 <= b && b <= 57) {
            assert(!is_digit(digits@[i as int]));
            return None;
        }
        value = value * 10 + (b - 48) as u64;
        if value > max as u64 {
            proof {
                lemma_digits_value_grows(digits@, i + 1);
            }
            return None;
        }
        assert forall|j: int| 0 <= j < seen.len() implies is_digit(#[trigger] seen[j]) by {
            if j < i {
                assert(seen[j] == digits@.take(i as int)[j]);
            }
        }
        i += 1;
    }
    assert(digits@.take(digits@.len() as int) =~= digits@);
    Some(value as u32)
}

} // verus!
