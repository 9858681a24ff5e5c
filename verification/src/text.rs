//! Byte-level operations on UTF-8 text.
//!
//! Offsets into a source text are byte offsets. The specifications therefore
//! speak of the UTF-8 encoding of a text, [`bytes_of`].

use vstd::prelude::*;
use vstd::utf8::*;

verus! {

broadcast use group_utf8_lib;

/// The UTF-8 encoding of a text.
pub open spec fn bytes_of(text: Seq<char>) -> Seq<u8> {
    encode_utf8(text)
}

/// `needle` occurs in `hay` at offset `at`.
pub open spec fn occurs_at(hay: Seq<u8>, needle: Seq<u8>, at: int) -> bool {
    &&& 0 <= at
    &&& at + needle.len() <= hay.len()
    &&& hay.subrange(at, at + needle.len()) == needle
}

/// `needle` occurs somewhere in `hay`.
pub open spec fn occurs_in(hay: Seq<u8>, needle: Seq<u8>) -> bool {
    exists|at: int| occurs_at(hay, needle, at)
}

/// The encoding of `text` begins with the encoding of `prefix`.
pub open spec fn text_starts_with(text: Seq<char>, prefix: Seq<char>) -> bool {
    occurs_at(bytes_of(text), bytes_of(prefix), 0)
}

/// The encoding of `needle` occurs in the encoding of `text`.
pub open spec fn text_contains(text: Seq<char>, needle: Seq<char>) -> bool {
    occurs_in(bytes_of(text), bytes_of(needle))
}

/// `start..end` is a range of bytes of `text` that begins and ends between
/// two characters.
pub open spec fn is_text_range(text: Seq<char>, start: int, end: int) -> bool {
    &&& 0 <= start <= end <= bytes_of(text).len()
    &&& is_char_boundary(bytes_of(text), start)
    &&& is_char_boundary(bytes_of(text), end)
}

/// The text whose encoding is the bytes `start..end` of the encoding of `text`.
pub open spec fn text_slice(text: Seq<char>, start: int, end: int) -> Seq<char> {
    decode_utf8(bytes_of(text).subrange(start, end))
}

/// Two texts with the same encoding are the same text.
pub proof fn lemma_bytes_of_injective(a: Seq<char>, b: Seq<char>)
    requires
        bytes_of(a) == bytes_of(b),
    ensures
        a == b,
{
    assert(decode_utf8(encode_utf8(a)) == a);
    assert(decode_utf8(encode_utf8(b)) == b);
}

/// A slice of a text over a proper range encodes to exactly the bytes of that range.
pub proof fn lemma_text_slice_bytes(text: Seq<char>, start: int, end: int)
    requires
        is_text_range(text, start, end),
    ensures
        bytes_of(text_slice(text, start, end)) == bytes_of(text).subrange(start, end),
{
    let bytes = bytes_of(text);
    let head = bytes.subrange(0, end);
    valid_utf8_split(bytes, end);
    lemma_boundary_in_head(bytes, start, end);
    valid_utf8_split(head, start);
    assert(head.subrange(start, head.len() as int) =~= bytes.subrange(start, end));
}

/// A boundary of a text that lies before another boundary is a boundary of
/// the part before that other boundary, and the other way round.
pub proof fn lemma_boundary_in_head(bytes: Seq<u8>, start: int, end: int)
    requires
        valid_utf8(bytes),
        0 <= start <= end <= bytes.len(),
        is_char_boundary(bytes, end),
    ensures
        is_char_boundary(bytes.subrange(0, end), start) == is_char_boundary(bytes, start),
{
    let head = bytes.subrange(0, end);
    valid_utf8_split(bytes, end);
    if start < end {
        is_char_boundary_iff_not_is_continuation_byte(bytes, start);
        is_char_boundary_iff_not_is_continuation_byte(head, start);
    } else {
        is_char_boundary_start_end_of_seq(head);
    }
}

/// Whether two texts are equal.
pub fn text_eq(a: &str, b: &str) -> (r: bool)
    ensures
        r == (a@ == b@),
{
    let x = a.as_bytes();
    let y = b.as_bytes();
    if x.len() != y.len() {
        return false;
    }
    let mut i: usize = 0;
    while i < x.len()
        invariant
            x@ == bytes_of(a@),
            y@ == bytes_of(b@),
            x.len() == y.len(),
            i <= x.len(),
            forall|k: int| 0 <= k < i ==> x@[k] == y@[k],
        decreases x.len() - i,
    {
        if x[i] != y[i] {
            return false;
        }
        i += 1;
    }
    proof {
        assert(x@ =~= y@);
        lemma_bytes_of_injective(a@, b@);
    }
    true
}

/// Whether `needle` occurs in `hay` at offset `at`.
fn bytes_occur_at(hay: &[u8], needle: &[u8], at: usize) -> (r: bool)
    ensures
        r == occurs_at(hay@, needle@, at as int),
{
    if needle.len() > hay.len() || at > hay.len() - needle.len() {
        return false;
    }
    let mut i: usize = 0;
    while i < needle.len()
        invariant
            at + needle.len() <= hay.len(),
            i <= needle.len(),
            forall|k: int| 0 <= k < i ==> hay@[at + k] == needle@[k],
        decreases needle.len() - i,
    {
        if hay[at + i] != needle[i] {
            proof {
                let part = hay@.subrange(at as int, at + needle@.len());
                assert(part[i as int] == hay@[at + i]);
            }
            return false;
        }
        i += 1;
    }
    proof {
        assert(hay@.subrange(at as int, at + needle@.len()) =~= needle@);
    }
    true
}

/// Whether `text` begins with `prefix`.
pub fn starts_with(text: &str, prefix: &str) -> (r: bool)
    ensures
        r == text_starts_with(text@, prefix@),
{
    bytes_occur_at(text.as_bytes(), prefix.as_bytes(), 0)
}

/// Whether `needle` occurs in `text`.
pub fn contains(text: &str, needle: &str) -> (r: bool)
    ensures
        r == text_contains(text@, needle@),
{
    let hay = text.as_bytes();
    let pattern = needle.as_bytes();
    if pattern.len() > hay.len() {
        assert forall|at: int| !occurs_at(hay@, pattern@, at) by {}
        return false;
    }
    let last: usize = hay.len() - pattern.len();
    if bytes_occur_at(hay, pattern, last) {
        return true;
    }
    let mut at: usize = 0;
    while at < last
        invariant
            hay@ == bytes_of(text@),
            pattern@ == bytes_of(needle@),
            last == hay.len() - pattern.len(),
            at <= last,
            !occurs_at(hay@, pattern@, last as int),
            forall|k: int| 0 <= k < at ==> !occurs_at(hay@, pattern@, k),
        decreases last - at,
    {
        if bytes_occur_at(hay, pattern, at) {
            return true;
        }
        at += 1;
    }
    assert forall|k: int| !occurs_at(hay@, pattern@, k) by {}
    false
}

/// Whether `start..end` is a range of bytes of `text` that begins and ends
/// between two characters.
pub fn is_range(text: &str, start: usize, end: usize) -> (r: bool)
    ensures
        r == is_text_range(text@, start as int, end as int),
{
    if start <= end && end <= text.as_bytes().len() {
        let at_start = text.is_char_boundary(start);
        let at_end = text.is_char_boundary(end);
        at_start && at_end
    } else {
        false
    }
}

/// The part of `text` between the byte offsets `start` and `end`.
pub fn slice(text: &str, start: usize, end: usize) -> (r: String)
    requires
        is_text_range(text@, start as int, end as int),
    ensures
        r@ == text_slice(text@, start as int, end as int),
        bytes_of(r@) == bytes_of(text@).subrange(start as int, end as int),
{
    proof {
        lemma_boundary_in_head(bytes_of(text@), start as int, end as int);
        lemma_text_slice_bytes(text@, start as int, end as int);
    }
    let (head, _) = text.split_at(end);
    let (_, part) = head.split_at(start);
    proof {
        assert(bytes_of(part@) =~= bytes_of(text@).subrange(start as int, end as int));
        lemma_bytes_of_injective(part@, text_slice(text@, start as int, end as int));
    }
    part.to_owned()
}

} // verus!
