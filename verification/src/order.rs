//! The total order behind ranks and medians.
//!
//! A rank-`k` element of a sequence is defined as the element at index
//! `k` of `sorted_of`, the fully sorted copy of the sequence.  The lemmas
//! here connect that definition to what the selection engine establishes:
//! a permutation whose `k`-th element has everything before it no larger
//! and everything after it no smaller.

use vstd::prelude::*;
use vstd::relations::{sorted_by, total_ordering};
use vstd::seq_lib::{lemma_multiset_commutative, lemma_sorted_unique};

verus! {

/// The order on `usize` under which ranks are taken.
pub open spec fn size_le() -> spec_fn(usize, usize) -> bool {
    |a: usize, b: usize| a <= b
}

pub proof fn lemma_size_le_total()
    ensures
        total_ordering(size_le()),
{
    assert forall|x: usize| #[trigger] size_le()(x, x) by {}
}

/// The fully sorted copy of a sequence.
pub open spec fn sorted_of(s: Seq<usize>) -> Seq<usize> {
    s.sort_by(size_le())
}

/// The sorted copy is a permutation of the sequence and is sorted.
pub proof fn lemma_sorted_of_ensures(s: Seq<usize>)
    ensures
        sorted_of(s).to_multiset() == s.to_multiset(),
        sorted_of(s).len() == s.len(),
        sorted_by(sorted_of(s), size_le()),
        forall|i: int, j: int|
            0 <= i <= j < s.len() ==> #[trigger] sorted_of(s)[i] <= #[trigger] sorted_of(s)[j],
{
    broadcast use vstd::seq_lib::group_to_multiset_ensures;

    lemma_size_le_total();
    s.lemma_sort_by_ensures(size_le());
    assert(sorted_of(s).to_multiset() =~= s.to_multiset());
    assert(sorted_of(s).len() == sorted_of(s).to_multiset().len());
    assert forall|i: int, j: int|
        0 <= i <= j < s.len() implies #[trigger] sorted_of(s)[i] <= #[trigger] sorted_of(s)[j] by {
        if i < j {
            assert(size_le()(sorted_of(s)[i], sorted_of(s)[j]));
        }
    }
}

/// Sequences with the same multiset of elements have the same sorted copy.
pub proof fn lemma_sorted_of_permutation(s: Seq<usize>, t: Seq<usize>)
    requires
        s.to_multiset() == t.to_multiset(),
    ensures
        sorted_of(s) == sorted_of(t),
{
    lemma_size_le_total();
    lemma_sorted_of_ensures(s);
    lemma_sorted_of_ensures(t);
    lemma_sorted_unique(sorted_of(s), sorted_of(t), size_le());
    assert(sorted_of(s) =~= sorted_of(t));
}

/// If position `k` of `t` has everything before it no larger and
/// everything after it no smaller, then `t[k]` is the rank-`k` element.
pub proof fn lemma_rank_element(t: Seq<usize>, k: int)
    requires
        0 <= k < t.len(),
        forall|i: int| 0 <= i < k ==> #[trigger] t[i] <= t[k],
        forall|i: int| k < i < t.len() ==> t[k] <= #[trigger] t[i],
    ensures
        sorted_of(t)[k] == t[k],
{
    broadcast use vstd::seq_lib::group_to_multiset_ensures;

    lemma_size_le_total();
    let left = t.subrange(0, k);
    let right = t.subrange(k + 1, t.len() as int);
    let mid = seq![t[k]];
    left.lemma_sort_by_ensures(size_le());
    right.lemma_sort_by_ensures(size_le());
    let ls = left.sort_by(size_le());
    let rs = right.sort_by(size_le());
    let w = ls + mid + rs;
    assert(t =~= left + mid + right);

    // `w` and `t` hold the same elements.
    lemma_multiset_commutative(left + mid, right);
    lemma_multiset_commutative(left, mid);
    lemma_multiset_commutative(ls + mid, rs);
    lemma_multiset_commutative(ls, mid);
    assert(ls.to_multiset().len() == left.to_multiset().len());
    assert(ls.len() == k);
    assert(w.to_multiset() =~= t.to_multiset());

    // Everything in `ls` came out of `left`, so it is at most `t[k]`;
    // symmetrically for `rs`.
    assert forall|i: int| 0 <= i < ls.len() implies #[trigger] ls[i] <= t[k] by {
        assert(ls.contains(ls[i]));
        assert(ls.to_multiset().count(ls[i]) > 0);
        assert(left.contains(ls[i]));
        let j = choose|j: int| 0 <= j < left.len() && left[j] == ls[i];
        assert(t[j] <= t[k]);
    }
    assert forall|i: int| 0 <= i < rs.len() implies t[k] <= #[trigger] rs[i] by {
        assert(rs.contains(rs[i]));
        assert(rs.to_multiset().count(rs[i]) > 0);
        assert(right.contains(rs[i]));
        let j = choose|j: int| 0 <= j < right.len() && right[j] == rs[i];
        assert(t[k] <= t[k + 1 + j]);
    }

    // `w` is sorted: within `ls` and `rs` by their construction, and
    // across the three parts by the two bounds above.
    assert forall|i: int, j: int| 0 <= i < j < w.len() implies #[trigger] size_le()(
        w[i],
        w[j],
    ) by {
        if j < ls.len() {
            assert(size_le()(ls[i], ls[j]));
        } else if i < ls.len() && j == ls.len() {
            assert(w[j] == t[k]);
        } else if i < ls.len() {
            assert(w[i] <= t[k] && t[k] <= w[j]);
        } else if i == ls.len() {
            assert(w[i] == t[k] && t[k] <= w[j]);
        } else {
            assert(size_le()(rs[i - ls.len() - 1], rs[j - ls.len() - 1]));
        }
    }
    assert(sorted_by(w, size_le()));

    t.lemma_sort_by_ensures(size_le());
    lemma_sorted_unique(w, sorted_of(t), size_le());
    assert(w =~= sorted_of(t));
    assert(w[k] == t[k]);
}

/// Bounds shared by every element survive sorting.
pub proof fn lemma_sorted_of_element_bounds(s: Seq<usize>, k: int, lo: usize, hi: usize)
    requires
        0 <= k < s.len(),
        forall|i: int| 0 <= i < s.len() ==> lo <= #[trigger] s[i] <= hi,
    ensures
        lo <= sorted_of(s)[k] <= hi,
{
    broadcast use vstd::seq_lib::group_to_multiset_ensures;

    lemma_sorted_of_ensures(s);
    assert(sorted_of(s).contains(sorted_of(s)[k]));
    assert(sorted_of(s).to_multiset().count(sorted_of(s)[k]) > 0);
    assert(s.contains(sorted_of(s)[k]));
}

/// Duplicate robustness: every rank of a constant sequence is that
/// constant.
pub proof fn lemma_sorted_of_constant(s: Seq<usize>, e: usize, k: int)
    requires
        0 <= k < s.len(),
        forall|i: int| 0 <= i < s.len() ==> #[trigger] s[i] == e,
    ensures
        sorted_of(s)[k] == e,
{
    broadcast use vstd::seq_lib::group_to_multiset_ensures;

    lemma_sorted_of_ensures(s);
    assert(sorted_of(s).contains(sorted_of(s)[k]));
    assert(sorted_of(s).to_multiset().count(sorted_of(s)[k]) > 0);
    assert(s.contains(sorted_of(s)[k]));
}

} // verus!
