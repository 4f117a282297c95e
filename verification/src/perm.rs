//! The board's mathematical model: a sequence of cell values that is a
//! permutation of `0 .. len`, together with the lemmas the operations need.

use vstd::prelude::*;

verus! {

/// Every value in the sequence is a valid identifier, i.e. below the length.
pub open spec fn in_range(s: Seq<usize>) -> bool {
    forall|i: int| 0 <= i < s.len() ==> s[i] < s.len()
}

/// Every identifier below the length occurs somewhere in the sequence.
pub open spec fn complete(s: Seq<usize>) -> bool {
    forall|v: int| 0 <= v < s.len() ==> #[trigger] s.contains(v as usize)
}

/// The sequence holds each identifier `0 .. len` exactly once: values are in
/// range, none repeats, and none is missing.
pub open spec fn is_permutation(s: Seq<usize>) -> bool {
    in_range(s) && s.no_duplicates() && complete(s)
}

/// Rearranging a sequence (keeping the same elements, as a multiset) keeps it
/// a permutation of `0 .. len`.
pub proof fn lemma_rearrangement_is_permutation(s1: Seq<usize>, s2: Seq<usize>)
    requires
        is_permutation(s1),
        s1.to_multiset() == s2.to_multiset(),
    ensures
        s2.len() == s1.len(),
        is_permutation(s2),
{
    broadcast use vstd::seq_lib::group_to_multiset_ensures;

    assert(s1.to_multiset().len() == s1.len());
    assert(s2.to_multiset().len() == s2.len());
    assert forall|i: int| 0 <= i < s2.len() implies s2[i] < s2.len() by {
        assert(s2.contains(s2[i]));
        assert(s1.to_multiset().count(s2[i]) > 0);
        let k = choose|k: int| 0 <= k < s1.len() && s1[k] == s2[i];
        assert(s1[k] < s1.len());
    }
    assert forall|v: int| 0 <= v < s2.len() implies #[trigger] s2.contains(v as usize) by {
        assert(s1.contains(v as usize));
        assert(s2.to_multiset().count(v as usize) > 0);
    }
    s1.lemma_multiset_has_no_duplicates();
    s2.lemma_multiset_has_no_duplicates_conv();
}

/// Swapping two cells of a permutation of `0 .. len` leaves a permutation of
/// `0 .. len`.
pub proof fn lemma_swap_preserves_permutation(s: Seq<usize>, i: int, j: int)
    requires
        is_permutation(s),
        0 <= i < s.len(),
        0 <= j < s.len(),
    ensures
        is_permutation(s.update(i, s[j]).update(j, s[i])),
{
    let t = s.update(i, s[j]).update(j, s[i]);
    assert forall|v: int| 0 <= v < t.len() implies #[trigger] t.contains(v as usize) by {
        assert(s.contains(v as usize));
        let k = choose|k: int| 0 <= k < s.len() && s[k] == v as usize;
        if k == i {
            assert(t[j] == v as usize);
        } else if k == j {
            assert(t[i] == v as usize);
        } else {
            assert(t[k] == v as usize);
        }
    }
}

} // verus!
