//! Facts about the little-endian encoding of words.
use vstd::bytes::{
    lemma_auto_spec_u64_to_from_le_bytes, spec_u64_from_le_bytes, spec_u64_to_le_bytes,
};
use vstd::prelude::*;

verus! {

/// Whether `second` has the length of `first` and differs from it in the
/// byte at `at` and nowhere else.
pub open spec fn differ_in_one_byte(first: Seq<u8>, second: Seq<u8>, at: int) -> bool {
    &&& first.len() == second.len()
    &&& 0 <= at < first.len()
    &&& first[at] != second[at]
    &&& forall|i: int| 0 <= i < first.len() && i != at ==> first[i] == second[i]
}

/// Two strings of eight bytes that encode the same word are the same.
pub proof fn lemma_word_bytes_injective(first: Seq<u8>, second: Seq<u8>)
    requires
        first.len() == 8,
        second.len() == 8,
        spec_u64_from_le_bytes(first) == spec_u64_from_le_bytes(second),
    ensures
        first == second,
{
    lemma_auto_spec_u64_to_from_le_bytes();
    assert(spec_u64_to_le_bytes(spec_u64_from_le_bytes(first)) == first);
    assert(spec_u64_to_le_bytes(spec_u64_from_le_bytes(second)) == second);
}

/// A change of one byte inside a window of eight bytes changes the word
/// that the window encodes; a change outside leaves the window as it was.
pub proof fn lemma_window_after_change(first: Seq<u8>, second: Seq<u8>, at: int, from: int)
    requires
        differ_in_one_byte(first, second, at),
        0 <= from,
        from + 8 <= first.len(),
    ensures
        from <= at < from + 8 ==> spec_u64_from_le_bytes(first.subrange(from, from + 8))
            != spec_u64_from_le_bytes(second.subrange(from, from + 8)),
        !(from <= at < from + 8) ==> first.subrange(from, from + 8) == second.subrange(
            from,
            from + 8,
        ),
{
    let a = first.subrange(from, from + 8);
    let b = second.subrange(from, from + 8);
    if from <= at < from + 8 {
        assert(a[at - from] != b[at - from]);
        if spec_u64_from_le_bytes(a) == spec_u64_from_le_bytes(b) {
            lemma_word_bytes_injective(a, b);
        }
    } else {
        assert(a =~= b);
    }
}

} // verus!
