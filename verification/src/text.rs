//! Text utilities shared by the resolvers: the sentinel for unresolvable
//! facts, permissive byte-to-text decoding, and lemmas that pin down the
//! first and last occurrence of an element in a sequence.

use vstd::prelude::*;

verus! {

/// The placeholder text published when a fact cannot be resolved.
pub open spec fn unknown_name() -> Seq<char> {
    "(unknown)"@
}

/// The executable form of the sentinel.
pub fn unknown_name_text() -> (r: String)
    ensures
        r@ == unknown_name(),
{
    "(unknown)".to_owned()
}

/// The characters that a byte sequence decodes to under permissive UTF-8
/// decoding (invalid sequences replaced, never rejected). The decoding
/// depends on the bytes alone.
pub uninterp spec fn utf8_lossy_of(bytes: Seq<u8>) -> Seq<char>;

/// Relies on String::from_utf8_lossy: decodes the bytes as UTF-8,
/// replacing invalid sequences with the replacement character rather than
/// rejecting them; the result is a function of the bytes alone.
#[verifier::external_body]
pub(crate) fn decode_utf8_lossy(bytes: &Vec<u8>) -> (r: String)
    ensures
        r@ == utf8_lossy_of(bytes@),
{
    String::from_utf8_lossy(bytes.as_slice()).into_owned()
}

/// An element that stands at `i` and nowhere before it has its first
/// occurrence at `i`.
pub proof fn lemma_first_occurrence<A>(s: Seq<A>, needle: A, i: int)
    requires
        0 <= i < s.len(),
        s[i] == needle,
        forall|j: int| 0 <= j < i ==> s[j] != needle,
    ensures
        s.index_of_first(needle) == Some(i),
{
    s.index_of_first_ensures(needle);
    assert(s.contains(needle)) by {
        assert(0 <= i < s.len() && s[i] == needle);
    }
    match s.index_of_first(needle) {
        Some(idx) => {
            if idx < i {
                assert(s[idx] != needle);
            } else if idx > i {
                assert(s[i] != needle);
            }
        },
        None => {
            assert(false);
        },
    }
}

/// An element that occurs nowhere in the sequence has no first occurrence.
pub proof fn lemma_no_first_occurrence<A>(s: Seq<A>, needle: A)
    requires
        forall|j: int| 0 <= j < s.len() ==> s[j] != needle,
    ensures
        s.index_of_first(needle) is None,
{
    s.index_of_first_ensures(needle);
    match s.index_of_first(needle) {
        Some(idx) => {
            assert(s[idx] != needle);
        },
        None => {},
    }
}

/// An element that stands at `i` and nowhere after it has its last
/// occurrence at `i`.
pub proof fn lemma_last_occurrence<A>(s: Seq<A>, needle: A, i: int)
    requires
        0 <= i < s.len(),
        s[i] == needle,
        forall|j: int| i < j < s.len() ==> s[j] != needle,
    ensures
        s.index_of_last(needle) == Some(i),
{
    s.index_of_last_ensures(needle);
    assert(s.contains(needle)) by {
        assert(0 <= i < s.len() && s[i] == needle);
    }
    match s.index_of_last(needle) {
        Some(idx) => {
            if idx < i {
                assert(s[i] != needle);
            } else if idx > i {
                assert(s[idx] != needle);
            }
        },
        None => {
            assert(false);
        },
    }
}

/// An element that occurs nowhere in the sequence has no last occurrence.
pub proof fn lemma_no_last_occurrence<A>(s: Seq<A>, needle: A)
    requires
        forall|j: int| 0 <= j < s.len() ==> s[j] != needle,
    ensures
        s.index_of_last(needle) is None,
{
    s.index_of_last_ensures(needle);
    match s.index_of_last(needle) {
        Some(idx) => {
            assert(s[idx] != needle);
        },
        None => {},
    }
}

} // verus!
