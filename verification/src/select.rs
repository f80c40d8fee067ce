//! The selection engine: a partition-based k-th-order-statistic selector.
//!
//! `select_checked` and `select_unchecked` place the element of rank `k`
//! (the element at index `k` of a fully sorted copy) at position `k`,
//! leaving the sequence partitioned around that rank.  Each level
//! partitions the working range around a pivot into the elements below,
//! equal to, and above the pivot, and recurses into the one group that
//! holds rank `k`; an equal-group hit returns at once, which keeps runs
//! of duplicates linear.

use crate::bounds::OutOfBounds;
use crate::order::{lemma_rank_element, lemma_sorted_of_permutation, sorted_of};
use vstd::prelude::*;

verus! {

/// How the selection engine picks its pivot.  The choice bears only on
/// running time, never on the result.
#[derive(Debug, Clone, Copy, PartialEq, Eq)]
pub enum PivotPolicy {
    /// Of the first, middle and last element of the working range, take
    /// whichever is bracketed by the other two; guards against sorted
    /// and reverse-sorted inputs.
    MedianOfThree,
    /// Always take the last element of the working range: deterministic
    /// worst-case behaviour, meant for exercising the engine in tests.
    LastIndex,
}

/// Picks a pivot position in `v[lo..hi]` under `policy`.
fn choose_pivot(v: &Vec<usize>, lo: usize, hi: usize, policy: PivotPolicy) -> (r: usize)
    requires
        lo < hi <= v.len(),
    ensures
        lo <= r < hi,
{
    match policy {
        PivotPolicy::LastIndex => hi - 1,
        PivotPolicy::MedianOfThree => {
            let mid = lo + (hi - lo) / 2;
            let a = v[lo];
            let b = v[mid];
            let c = v[hi - 1];
            if (a <= b && b <= c) || (c <= b && b <= a) {
                mid
            } else if (b <= a && a <= c) || (c <= a && a <= b) {
                lo
            } else {
                hi - 1
            }
        },
    }
}

proof fn lemma_concat3_multiset(a: Seq<usize>, b: Seq<usize>, c: Seq<usize>)
    ensures
        (a + b + c).to_multiset() == a.to_multiset().add(b.to_multiset()).add(c.to_multiset()),
{
    broadcast use vstd::multiset::group_multiset_axioms;

    vstd::seq_lib::lemma_multiset_commutative(a, b);
    vstd::seq_lib::lemma_multiset_commutative(a + b, c);
    assert((a + b + c).to_multiset() =~= a.to_multiset().add(b.to_multiset()).add(c.to_multiset()));
}

/// Three-way partition of `v[lo..hi]` around the value at `piv`.
///
/// Afterwards the range holds first the `r.0` elements below the pivot
/// value, then the `r.1 >= 1` elements equal to it, then the elements
/// above it; the rest of the vector is untouched.
fn partition3(v: &mut Vec<usize>, lo: usize, hi: usize, piv: usize) -> (r: (usize, usize))
    requires
        lo <= piv < hi <= old(v).len(),
    ensures
        final(v).len() == old(v).len(),
        forall|i: int| 0 <= i < lo || hi <= i < old(v).len() ==> final(v)@[i] == old(v)@[i],
        final(v)@.subrange(lo as int, hi as int).to_multiset() == old(v)@.subrange(
            lo as int,
            hi as int,
        ).to_multiset(),
        r.0 + r.1 <= hi - lo,
        1 <= r.1,
        forall|i: int| lo <= i < lo + r.0 ==> final(v)@[i] < old(v)@[piv as int],
        forall|i: int| lo + r.0 <= i < lo + r.0 + r.1 ==> final(v)@[i] == old(v)@[piv as int],
        forall|i: int| lo + r.0 + r.1 <= i < hi ==> final(v)@[i] > old(v)@[piv as int],
{
    broadcast use vstd::seq_lib::group_to_multiset_ensures;
    broadcast use vstd::seq_lib::lemma_multiset_commutative;
    broadcast use vstd::multiset::group_multiset_axioms;

    let p = v[piv];
    let mut below: Vec<usize> = Vec::new();
    let mut equal: Vec<usize> = Vec::new();
    let mut above: Vec<usize> = Vec::new();
    let mut i = lo;
    while i < hi
        invariant
            lo <= i <= hi <= v.len(),
            v@ == old(v)@,
            p == old(v)@[piv as int],
            lo <= piv < hi,
            (below@ + equal@ + above@).to_multiset() == v@.subrange(lo as int, i as int).to_multiset(),
            forall|j: int| 0 <= j < below@.len() ==> below@[j] < p,
            forall|j: int| 0 <= j < equal@.len() ==> equal@[j] == p,
            forall|j: int| 0 <= j < above@.len() ==> above@[j] > p,
            piv < i ==> equal@.len() >= 1,
        decreases hi - i,
    {
        let ghost pb = below@;
        let ghost pe = equal@;
        let ghost pa = above@;
        let x = v[i];
        if x < p {
            below.push(x);
        } else if x == p {
            equal.push(x);
        } else {
            above.push(x);
        }
        proof {
            broadcast use vstd::multiset::group_multiset_axioms;
            broadcast use vstd::seq_lib::group_to_multiset_ensures;

            lemma_concat3_multiset(pb, pe, pa);
            lemma_concat3_multiset(below@, equal@, above@);
            if x < p {
                assert(below@ == pb.push(x));
                assert(pb.push(x).to_multiset() == pb.to_multiset().insert(x));
            } else if x == p {
                assert(equal@ == pe.push(x));
                assert(pe.push(x).to_multiset() == pe.to_multiset().insert(x));
            } else {
                assert(above@ == pa.push(x));
                assert(pa.push(x).to_multiset() == pa.to_multiset().insert(x));
            }
            assert(v@.subrange(lo as int, i + 1 as int) =~= v@.subrange(lo as int, i as int).push(
                v@[i as int],
            ));
            assert(v@.subrange(lo as int, i + 1 as int).to_multiset() == v@.subrange(
                lo as int,
                i as int,
            ).push(v@[i as int]).to_multiset());
            assert((below@ + equal@ + above@).to_multiset() =~= (pb + pe + pa).to_multiset().insert(
                x,
            ));
        }
        i += 1;
    }
    let nl = below.len();
    let ne = equal.len();
    let ghost bs = below@;
    let ghost es = equal@;
    let ghost gs = above@;
    let mut combined = below;
    combined.append(&mut equal);
    combined.append(&mut above);
    let n = hi - lo;
    proof {
        assert(combined@ == bs + es + gs);
        assert(combined@.to_multiset().len() == v@.subrange(lo as int, hi as int).to_multiset().len());
        assert(combined@.len() == n);
    }
    let mut j: usize = 0;
    while j < n
        invariant
            j <= n,
            n == hi - lo,
            hi <= v.len(),
            v.len() == old(v).len(),
            combined@.len() == n,
            forall|t: int| 0 <= t < lo || lo + j <= t < v@.len() ==> v@[t] == old(v)@[t],
            forall|t: int| 0 <= t < j ==> v@[lo + t] == combined@[t],
        decreases n - j,
    {
        let val = combined[j];
        v[lo + j] = val;
        j += 1;
    }
    proof {
        assert(v@.subrange(lo as int, hi as int) =~= combined@);
        assert forall|i: int| lo <= i < lo + nl implies v@[i] < p by {
            assert(v@[i] == combined@[i - lo]);
            assert(combined@[i - lo] == bs[i - lo]);
        }
        assert forall|i: int| lo + nl <= i < lo + nl + ne implies v@[i] == p by {
            assert(v@[i] == combined@[i - lo]);
            assert(combined@[i - lo] == es[i - lo - nl]);
        }
        assert forall|i: int| lo + nl + ne <= i < hi implies v@[i] > p by {
            assert(v@[i] == combined@[i - lo]);
            assert(combined@[i - lo] == gs[i - lo - nl - ne]);
        }
    }
    (nl, ne)
}

/// Selection over the working range `v[lo..hi]`: returns the element of
/// rank `k` and leaves the range partitioned around position `k`.
fn select_range(v: &mut Vec<usize>, lo: usize, hi: usize, k: usize, policy: PivotPolicy) -> (r:
    usize)
    requires
        lo <= k < hi <= old(v).len(),
    ensures
        final(v).len() == old(v).len(),
        forall|i: int| 0 <= i < lo || hi <= i < old(v).len() ==> final(v)@[i] == old(v)@[i],
        final(v)@.subrange(lo as int, hi as int).to_multiset() == old(v)@.subrange(
            lo as int,
            hi as int,
        ).to_multiset(),
        final(v)@[k as int] == r,
        forall|i: int| lo <= i < k ==> final(v)@[i] <= r,
        forall|i: int| k < i < hi ==> r <= final(v)@[i],
    decreases hi - lo,
{
    broadcast use vstd::seq_lib::group_to_multiset_ensures;
    broadcast use vstd::seq_lib::lemma_multiset_commutative;
    broadcast use vstd::multiset::group_multiset_axioms;

    let ghost v0 = old(v)@;
    let piv = choose_pivot(v, lo, hi, policy);
    let ghost p = v@[piv as int];
    let (nl, ne) = partition3(v, lo, hi, piv);
    let ghost v1 = v@;
    let m1 = lo + nl;
    let m2 = lo + nl + ne;
    if k < m1 {
        let r = select_range(v, lo, m1, k, policy);
        proof {
            // The whole range keeps its elements: the recursion touched
            // only `[lo, m1)` and preserved its multiset.
            assert(v1.subrange(m1 as int, hi as int) =~= v@.subrange(m1 as int, hi as int));
            assert(v1.subrange(lo as int, hi as int) =~= v1.subrange(lo as int, m1 as int)
                + v1.subrange(m1 as int, hi as int));
            assert(v@.subrange(lo as int, hi as int) =~= v@.subrange(lo as int, m1 as int)
                + v@.subrange(m1 as int, hi as int));
            // The result came out of the below-pivot group, so it is
            // below everything at `m1` and beyond.
            assert(v@.subrange(lo as int, m1 as int)[k - lo] == r);
            assert(v@.subrange(lo as int, m1 as int).contains(r));
            assert(v@.subrange(lo as int, m1 as int).to_multiset().count(r) > 0);
            assert(v1.subrange(lo as int, m1 as int).contains(r));
            let j = choose|j: int|
                0 <= j < m1 - lo && v1.subrange(lo as int, m1 as int)[j] == r;
            assert(v1[lo + j] < p);
        }
        r
    } else if k < m2 {
        let r = v[k];
        r
    } else {
        let r = select_range(v, m2, hi, k, policy);
        proof {
            assert(v1.subrange(lo as int, m2 as int) =~= v@.subrange(lo as int, m2 as int));
            assert(v1.subrange(lo as int, hi as int) =~= v1.subrange(lo as int, m2 as int)
                + v1.subrange(m2 as int, hi as int));
            assert(v@.subrange(lo as int, hi as int) =~= v@.subrange(lo as int, m2 as int)
                + v@.subrange(m2 as int, hi as int));
            // The result came out of the above-pivot group, so it is
            // above everything before `m2`.
            assert(v@.subrange(m2 as int, hi as int)[k - m2] == r);
            assert(v@.subrange(m2 as int, hi as int).contains(r));
            assert(v@.subrange(m2 as int, hi as int).to_multiset().count(r) > 0);
            assert(v1.subrange(m2 as int, hi as int).contains(r));
            let j = choose|j: int|
                0 <= j < hi - m2 && v1.subrange(m2 as int, hi as int)[j] == r;
            assert(v1[m2 + j] > p);
        }
        r
    }
}

/// Unchecked selection surface: the caller proves `k < v.len()`.
///
/// Returns the element of rank `k` — the element at index `k` of a fully
/// sorted copy — and leaves the sequence a permutation of itself,
/// partitioned around position `k`.
pub fn select_unchecked(v: &mut Vec<usize>, k: usize, policy: PivotPolicy) -> (r: usize)
    requires
        k < old(v).len(),
    ensures
        final(v).len() == old(v).len(),
        final(v)@.to_multiset() == old(v)@.to_multiset(),
        r == sorted_of(old(v)@)[k as int],
        final(v)@[k as int] == r,
        forall|i: int| 0 <= i < k ==> final(v)@[i] <= r,
        forall|i: int| k < i < old(v).len() ==> r <= final(v)@[i],
{
    let n = v.len();
    let r = select_range(v, 0, n, k, policy);
    proof {
        assert(v@.subrange(0, n as int) =~= v@);
        assert(old(v)@.subrange(0, n as int) =~= old(v)@);
        lemma_rank_element(v@, k as int);
        lemma_sorted_of_permutation(old(v)@, v@);
    }
    r
}

/// Checked selection surface: validates the rank first and returns
/// `Err(OutOfBounds)` exactly when `k` is at or past the end.
///
/// On success the result is the element at index `k` of a fully sorted
/// copy of the input, whatever the pivot policy, and the sequence is
/// left a permutation of itself partitioned around position `k`.
pub fn select_checked(v: &mut Vec<usize>, k: usize, policy: PivotPolicy) -> (r: Result<
    usize,
    OutOfBounds,
>)
    ensures
        final(v).len() == old(v).len(),
        final(v)@.to_multiset() == old(v)@.to_multiset(),
        k < old(v).len() ==> (r matches Ok(x) && x == sorted_of(old(v)@)[k as int]
            && final(v)@[k as int] == x && (forall|i: int| 0 <= i < k ==> final(v)@[i] <= x)
            && (forall|i: int| k < i < old(v).len() ==> x <= final(v)@[i])),
        k >= old(v).len() ==> (r matches Err(e) && e == OutOfBounds && final(v)@ == old(v)@),
{
    if k < v.len() {
        Ok(select_unchecked(v, k, policy))
    } else {
        Err(OutOfBounds)
    }
}

} // verus!

