//! Peak extraction from a one-dimensional edge-strength signal.
//!
//! A peak is a strict local maximum.  Signal samples are compared only
//! by order, so they are carried as order-preserving unsigned keys (a
//! non-negative floating-point strength maps onto its bit pattern
//! without disturbing the order).
//!
//! The boundary policy decides whether the sentinel indices `0` and
//! `len` join the peak set, so that the distance from the signal edge
//! to the outermost true peak counts as a spacing sample downstream;
//! both behaviours are offered.

use vstd::prelude::*;

verus! {

/// Whether the sentinel boundary indices `0` and `len` count as peaks.
#[derive(Debug, Clone, Copy, PartialEq, Eq)]
pub enum BoundaryPolicy {
    /// Prepend index `0` and append index `len`, so edge-to-peak
    /// distances enter the spacing statistics.
    IncludeSentinels,
    /// Keep only the strict interior local maxima.
    ExcludeSentinels,
}

/// A strict local maximum at `i`: both neighbours exist and are
/// strictly smaller.
pub open spec fn is_inner_peak(s: Seq<u32>, i: int) -> bool {
    1 <= i && i + 1 < s.len() && s[i - 1] < s[i] && s[i] > s[i + 1]
}

/// The interior peak indices below `n`, in increasing order.
pub open spec fn inner_peaks_upto(s: Seq<u32>, n: int) -> Seq<usize>
    decreases n,
{
    if n <= 0 {
        Seq::empty()
    } else {
        if is_inner_peak(s, n - 1) {
            inner_peaks_upto(s, n - 1).push((n - 1) as usize)
        } else {
            inner_peaks_upto(s, n - 1)
        }
    }
}

/// The peak index set of a signal under a boundary policy.
pub open spec fn spec_peaks(s: Seq<u32>, policy: BoundaryPolicy) -> Seq<usize>
    recommends
        s.len() >= 1,
{
    match policy {
        BoundaryPolicy::IncludeSentinels => seq![0usize] + inner_peaks_upto(s, s.len() as int)
            + seq![s.len() as usize],
        BoundaryPolicy::ExcludeSentinels => inner_peaks_upto(s, s.len() as int),
    }
}

/// Interior peaks are strictly increasing interior indices.
pub proof fn lemma_inner_peaks_props(s: Seq<u32>, n: int)
    requires
        0 <= n <= s.len(),
        n <= usize::MAX,
    ensures
        forall|i: int, j: int|
            0 <= i < j < inner_peaks_upto(s, n).len() ==> #[trigger] inner_peaks_upto(s, n)[i]
                < #[trigger] inner_peaks_upto(s, n)[j],
        forall|i: int|
            0 <= i < inner_peaks_upto(s, n).len() ==> 1 <= #[trigger] inner_peaks_upto(s, n)[i]
                && inner_peaks_upto(s, n)[i] < n && is_inner_peak(
                s,
                inner_peaks_upto(s, n)[i] as int,
            ),
    decreases n,
{
    if n > 0 {
        lemma_inner_peaks_props(s, n - 1);
        let prev = inner_peaks_upto(s, n - 1);
        let cur = inner_peaks_upto(s, n);
        if is_inner_peak(s, n - 1) {
            assert(cur == prev.push((n - 1) as usize));
            assert forall|i: int|
                0 <= i < cur.len() implies 1 <= #[trigger] cur[i] && cur[i] < n && is_inner_peak(
                s,
                cur[i] as int,
            ) by {
                if i < prev.len() {
                    assert(cur[i] == prev[i]);
                } else {
                    assert(cur[i] == (n - 1) as usize);
                }
            }
            assert forall|i: int, j: int|
                0 <= i < j < cur.len() implies #[trigger] cur[i] < #[trigger] cur[j] by {
                if j < prev.len() {
                    assert(cur[i] == prev[i] && cur[j] == prev[j]);
                } else {
                    assert(cur[j] == (n - 1) as usize);
                    assert(cur[i] == prev[i] && prev[i] < n - 1);
                }
            }
        } else {
            assert(cur == prev);
        }
    }
}

/// Finds the peak index set of `x` under `policy`: every strict local
/// maximum, with the sentinels `0` and `x.len()` around them when the
/// policy includes them.  The result is strictly increasing and stays
/// within `0 ..= x.len()`.
pub fn find_peaks_indices(x: &Vec<u32>, policy: BoundaryPolicy) -> (r: Vec<usize>)
    requires
        x@.len() >= 1,
    ensures
        r@ == spec_peaks(x@, policy),
        forall|i: int, j: int| 0 <= i < j < r@.len() ==> #[trigger] r@[i] < #[trigger] r@[j],
        forall|i: int| 0 <= i < r@.len() ==> #[trigger] r@[i] <= x@.len(),
{
    let with_sentinels = matches!(policy, BoundaryPolicy::IncludeSentinels);
    let mut peaks: Vec<usize> = Vec::new();
    if with_sentinels {
        peaks.push(0);
    }
    let ghost pref = peaks@;
    let n = x.len();
    proof {
        assert(!is_inner_peak(x@, 0));
        assert(inner_peaks_upto(x@, 1) == inner_peaks_upto(x@, 0));
        assert(inner_peaks_upto(x@, 0) == Seq::<usize>::empty());
        assert(peaks@ =~= pref + inner_peaks_upto(x@, 1));
    }
    let mut i: usize = 1;
    while i < n - 1
        invariant
            1 <= i <= n,
            n == x@.len(),
            n >= 1,
            peaks@ == pref + inner_peaks_upto(x@, i as int),
        decreases n - i,
    {
        if x[i - 1] < x[i] && x[i] > x[i + 1] {
            peaks.push(i);
            proof {
                assert(peaks@ =~= pref + inner_peaks_upto(x@, i + 1 as int));
            }
        } else {
            proof {
                assert(peaks@ =~= pref + inner_peaks_upto(x@, i + 1 as int));
            }
        }
        i += 1;
    }
    proof {
        assert(inner_peaks_upto(x@, i as int) =~= inner_peaks_upto(x@, n as int));
        lemma_inner_peaks_props(x@, n as int);
    }
    if with_sentinels {
        peaks.push(n);
        proof {
            assert(peaks@ =~= seq![0usize] + inner_peaks_upto(x@, n as int) + seq![n]);
        }
    }
    proof {
        assert forall|a: int, b: int| 0 <= a < b < peaks@.len() implies #[trigger] peaks@[a]
            < #[trigger] peaks@[b] by {}
    }
    peaks
}

/// The first difference of a sequence: element `i` is `x[i + 1] - x[i]`.
pub open spec fn spec_diff(x: Seq<usize>) -> Seq<usize> {
    if x.len() == 0 {
        Seq::empty()
    } else {
        Seq::new((x.len() - 1) as nat, |i: int| (x[i + 1] - x[i]) as usize)
    }
}

/// Consecutive differences of a nondecreasing sequence of positions.
pub fn diff(x: &Vec<usize>) -> (r: Vec<usize>)
    requires
        forall|i: int| 0 <= i && i + 1 < x@.len() ==> #[trigger] x@[i] <= x@[i + 1],
    ensures
        r@ == spec_diff(x@),
{
    let mut r: Vec<usize> = Vec::new();
    let n = x.len();
    if n == 0 {
        proof {
            assert(r@ =~= spec_diff(x@));
        }
        return r;
    }
    let mut i: usize = 0;
    while i < n - 1
        invariant
            0 <= i <= n - 1,
            n == x@.len(),
            n >= 1,
            r@.len() == i,
            forall|j: int| 0 <= j < i ==> #[trigger] r@[j] == x@[j + 1] - x@[j],
            forall|j: int| 0 <= j && j + 1 < x@.len() ==> #[trigger] x@[j] <= x@[j + 1],
        decreases n - i,
    {
        r.push(x[i + 1] - x[i]);
        i += 1;
    }
    proof {
        assert(r@ =~= spec_diff(x@));
    }
    r
}

} // verus!
