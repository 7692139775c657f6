//! Byte-level helpers for the text parts of the wire protocol.

use vstd::prelude::*;
use vstd::utf8::*;
use vstd::string::*;

verus! {

/// The ASCII space that separates a verb from its argument.
pub const SPACE: u8 = 0x20;

/// The byte sequences of `chunks`, one after another.
pub open spec fn joined(chunks: Seq<Seq<u8>>) -> Seq<u8>
    decreases chunks.len(),
{
    if chunks.len() == 0 {
        seq![]
    } else {
        joined(chunks.drop_last()) + chunks.last()
    }
}

/// Index of the first space in `b` at or after `from`, or `b.len()` when there is none.
pub open spec fn space_from(b: Seq<u8>, from: int) -> int
    decreases b.len() - from,
{
    if from < 0 || from >= b.len() {
        b.len() as int
    } else if b[from] == SPACE {
        from
    } else {
        space_from(b, from + 1)
    }
}

/// Index of the first space in `b`, or `b.len()` when there is none.
pub open spec fn first_space(b: Seq<u8>) -> int {
    space_from(b, 0)
}

proof fn lemma_space_from_bounds(b: Seq<u8>, from: int)
    requires
        0 <= from <= b.len(),
    ensures
        from <= space_from(b, from) <= b.len(),
        space_from(b, from) < b.len() ==> b[space_from(b, from)] == SPACE,
        forall|j: int| from <= j < space_from(b, from) ==> b[j] != SPACE,
    decreases b.len() - from,
{
    if from < b.len() && b[from] != SPACE {
        lemma_space_from_bounds(b, from + 1);
    }
}

proof fn lemma_no_space_before(b: Seq<u8>, end: int, j: int)
    requires
        0 <= j <= end < b.len(),
        b[end] == SPACE,
        forall|i: int| j <= i < end ==> b[i] != SPACE,
    ensures
        space_from(b, j) == end,
    decreases end - j,
{
    if j < end {
        lemma_no_space_before(b, end, j + 1);
    }
}

/// A word free of spaces, a space, then anything: the first space is the one after the word.
pub proof fn lemma_first_space_after_word(word: Seq<u8>, rest: Seq<u8>)
    requires
        forall|i: int| 0 <= i < word.len() ==> word[i] != SPACE,
    ensures
        first_space(word.push(SPACE) + rest) == word.len(),
{
    let b = word.push(SPACE) + rest;
    assert forall|i: int| 0 <= i < word.len() implies b[i] != SPACE by {
        assert(b[i] == word[i]);
    }
    lemma_no_space_before(b, word.len() as int, 0);
}

/// Relies on `std::str::from_utf8`: it accepts exactly the well-formed UTF-8
/// sequences and then views the same bytes as text.
#[verifier::external_body]
pub(crate) fn utf8_text(b: &[u8]) -> (r: Option<&str>)
    ensures
        r.is_some() == valid_utf8(b@),
        r matches Some(s) ==> s.spec_bytes() == b@,
{
    std::str::from_utf8(b).ok()
}

/// Index of the first space in `b`, or its length when it holds none.
pub fn find_space(b: &[u8]) -> (r: usize)
    ensures
        r == first_space(b@),
        r <= b@.len(),
{
    let mut i: usize = 0;
    while i < b.len()
        invariant
            0 <= i <= b@.len(),
            space_from(b@, 0) == space_from(b@, i as int),
        decreases b@.len() - i,
    {
        if b[i] == SPACE {
            return i;
        }
        i = i + 1;
    }
    i
}

/// Splits `text` at its first space: the part before it, and the part after
/// it when there is a space at all.
pub fn split_word(text: &str) -> (r: (&str, Option<&str>))
    ensures
        0 <= first_space(text.spec_bytes()) <= text.spec_bytes().len(),
        r.0.spec_bytes() == text.spec_bytes().subrange(0, first_space(text.spec_bytes())),
        first_space(text.spec_bytes()) == text.spec_bytes().len() <==> r.1.is_none(),
        r.1 matches Some(arg) ==> arg.spec_bytes() == text.spec_bytes().subrange(
            first_space(text.spec_bytes()) + 1,
            text.spec_bytes().len() as int,
        ),
{
    let b = text.as_bytes();
    let i = find_space(b);
    let ghost bytes = text.spec_bytes();
    proof {
        encode_utf8_valid_utf8(text@);
        lemma_space_from_bounds(bytes, 0);
    }
    if i == b.len() {
        assert(bytes.subrange(0, bytes.len() as int) =~= bytes);
        (text, None)
    } else {
        proof {
            is_char_boundary_iff_not_is_continuation_byte(bytes, i as int);
        }
        let (verb, rest) = text.split_at(i);
        let ghost rb = rest.spec_bytes();
        proof {
            encode_utf8_valid_utf8(rest@);
            assert(rb[0] == SPACE);
            assert(length_of_first_scalar(rb) == 1);
            reveal_with_fuel(is_char_boundary, 2);
            assert(is_char_boundary(rb, 1));
        }
        let (_, arg) = rest.split_at(1);
        assert(arg.spec_bytes() =~= bytes.subrange(i + 1, bytes.len() as int));
        (verb, Some(arg))
    }
}

} // verus!
