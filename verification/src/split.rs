//! Cutting a byte sequence at a separator byte.
//!
//! Both the frames of the stream and the fields of one frame are the pieces
//! between occurrences of one byte. The functions here say what those pieces
//! are, and the lemmas say how they behave when two sequences are joined.

use vstd::prelude::*;

verus! {

/// The index of the first `sep` in `s`, or `s.len()` where `s` holds none.
pub open spec fn first_index(s: Seq<u8>, sep: u8) -> int
    decreases s.len(),
{
    if s.len() == 0 {
        0
    } else if s[0] == sep {
        0
    } else {
        1 + first_index(s.skip(1), sep)
    }
}

/// The pieces of `s` between occurrences of `sep`, in order, empty pieces
/// included. A sequence with `n` separators has `n + 1` pieces.
pub open spec fn split_on(s: Seq<u8>, sep: u8) -> Seq<Seq<u8>>
    decreases s.len(),
{
    let k = first_index(s, sep);
    if 0 <= k < s.len() {
        seq![s.take(k)] + split_on(s.skip(k + 1), sep)
    } else {
        seq![s]
    }
}

/// `first_index` is a position in `s` or its end, no `sep` stands before it,
/// and where it is a position, `sep` stands there.
pub proof fn lemma_first_index(s: Seq<u8>, sep: u8)
    ensures
        0 <= first_index(s, sep) <= s.len(),
        forall|i: int| 0 <= i < first_index(s, sep) ==> s[i] != sep,
        first_index(s, sep) < s.len() ==> s[first_index(s, sep)] == sep,
    decreases s.len(),
{
    if s.len() != 0 && s[0] != sep {
        let t = s.skip(1);
        lemma_first_index(t, sep);
        assert forall|i: int| 0 <= i < first_index(s, sep) implies s[i] != sep by {
            if i > 0 {
                assert(s[i] == t[i - 1]);
            }
        }
    }
}

/// Any position that holds `sep` and has no `sep` before it is `first_index`.
pub proof fn lemma_first_index_is(s: Seq<u8>, sep: u8, k: int)
    requires
        0 <= k <= s.len(),
        forall|i: int| 0 <= i < k ==> s[i] != sep,
        k < s.len() ==> s[k] == sep,
    ensures
        first_index(s, sep) == k,
{
    lemma_first_index(s, sep);
}

/// A sequence is always cut into at least one piece.
pub proof fn lemma_split_nonempty(s: Seq<u8>, sep: u8)
    ensures
        split_on(s, sep).len() >= 1,
    decreases s.len(),
{
    lemma_first_index(s, sep);
    let k = first_index(s, sep);
    if k < s.len() {
        lemma_split_nonempty(s.skip(k + 1), sep);
    }
}

/// No piece holds the separator.
pub proof fn lemma_split_pieces_clean(s: Seq<u8>, sep: u8)
    ensures
        forall|i: int, j: int|
            0 <= i < split_on(s, sep).len() && 0 <= j < split_on(s, sep)[i].len()
                ==> #[trigger] split_on(s, sep)[i][j] != sep,
    decreases s.len(),
{
    lemma_first_index(s, sep);
    let k = first_index(s, sep);
    if k < s.len() {
        let rest = s.skip(k + 1);
        lemma_split_pieces_clean(rest, sep);
        assert forall|i: int, j: int|
            0 <= i < split_on(s, sep).len() && 0 <= j < split_on(s, sep)[i].len()
            implies #[trigger] split_on(s, sep)[i][j] != sep by {
            if i > 0 {
                assert(split_on(s, sep)[i] == split_on(rest, sep)[i - 1]);
            }
        }
    }
}

/// Cutting `a + b` gives the pieces of `a` but the last, then the pieces of
/// that last piece joined with `b`.
pub proof fn lemma_split_concat(a: Seq<u8>, b: Seq<u8>, sep: u8)
    ensures
        split_on(a + b, sep) == split_on(a, sep).drop_last() + split_on(
            split_on(a, sep).last() + b,
            sep,
        ),
    decreases a.len(),
{
    lemma_first_index(a, sep);
    let k = first_index(a, sep);
    if k < a.len() {
        let rest = a.skip(k + 1);
        lemma_split_concat(rest, b, sep);
        lemma_split_nonempty(rest, sep);
        lemma_first_index_is(a + b, sep, k);
        assert((a + b).take(k) == a.take(k));
        assert((a + b).skip(k + 1) == rest + b);
    }
}

/// The index of the first `sep` in `bytes`, if there is one.
pub fn find_byte(bytes: &[u8], sep: u8) -> (found: Option<usize>)
    ensures
        match found {
            Some(k) => k < bytes@.len() && k == first_index(bytes@, sep),
            None => first_index(bytes@, sep) == bytes@.len(),
        },
{
    let mut i: usize = 0;
    while i < bytes.len()
        invariant
            i <= bytes@.len(),
            forall|j: int| 0 <= j < i ==> bytes@[j] != sep,
        decreases bytes@.len() - i,
    {
        if bytes[i] == sep {
            proof {
                lemma_first_index_is(bytes@, sep, i as int);
            }
            return Some(i);
        }
        i += 1;
    }
    proof {
        lemma_first_index_is(bytes@, sep, bytes@.len() as int);
    }
    None
}

} // verus!
