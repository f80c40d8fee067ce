//! The grid-size estimator: from peak positions to one pixel size.
//!
//! Each axis contributes the median of its inter-peak spacings, reduced
//! to a single integer by the reconciliation rule; the two axis
//! estimates are then combined through their greatest common divisor,
//! which must tile both image dimensions evenly.

use crate::median::{get_median, spec_median, Median};
use crate::nonempty::NonEmptyVec;
use crate::order::lemma_sorted_of_element_bounds;
use crate::peaks::{diff, find_peaks_indices, spec_diff, spec_peaks, BoundaryPolicy};
use vstd::prelude::*;

verus! {

/// Failures of the grid-size estimation pipeline.
#[derive(Debug, Clone, Copy, PartialEq, Eq)]
pub enum EstimateError {
    /// The peak index set degenerated to fewer than two peaks, so there
    /// is no spacing sample to take a median of.
    EmptySpacingSet,
    /// The estimated pixel size does not evenly divide the image's
    /// width or height; downsampling would corrupt rather than shrink.
    IndivisibleDimension,
}

/// Euclid's greatest common divisor.
pub open spec fn spec_gcd(a: nat, b: nat) -> nat
    decreases b,
{
    if b == 0 {
        a
    } else {
        spec_gcd(b, a % b)
    }
}

/// The greatest common divisor of two positive numbers is positive.
pub proof fn lemma_gcd_pos(a: nat, b: nat)
    requires
        a > 0 || b > 0,
    ensures
        spec_gcd(a, b) > 0,
    decreases b,
{
    if b != 0 {
        lemma_gcd_pos(b, a % b);
    }
}

/// Greatest common divisor of two sizes, by Euclid's algorithm.
pub fn gcd(a: usize, b: usize) -> (r: usize)
    ensures
        r == spec_gcd(a as nat, b as nat),
{
    let mut x = a;
    let mut y = b;
    while y != 0
        invariant
            spec_gcd(x as nat, y as nat) == spec_gcd(a as nat, b as nat),
        decreases y,
    {
        let t = x % y;
        x = y;
        y = t;
    }
    x
}

/// The reconciliation of a median to one integer size: an odd median
/// stands as it is; for a middle pair whose sum is even the exact mean
/// wins, otherwise the larger value if it tiles `dim` evenly, and the
/// smaller value as the last resort.
pub open spec fn spec_reconcile(m: Median<usize>, dim: usize) -> usize {
    match m {
        Median::Odd(a) => a,
        Median::Even(a, b) => if (a + b) % 2 == 0 {
            ((a + b) / 2) as usize
        } else if b > 0 && dim as int % (b as int) == 0 {
            b
        } else {
            a
        },
    }
}

/// Reduces a median of spacings to a single size under the
/// reconciliation rule, with `dim` as the divisibility tie-break.
pub fn reconcile(m: Median<usize>, dim: usize) -> (r: usize)
    requires
        m matches Median::Even(a, b) ==> a + b <= usize::MAX && b >= 1,
    ensures
        r == spec_reconcile(m, dim),
{
    match m {
        Median::Odd(a) => a,
        Median::Even(a, b) => {
            if (a + b) % 2 == 0 {
                (a + b) / 2
            } else if dim % b == 0 {
                b
            } else {
                a
            }
        },
    }
}

/// The spacing set of a peak index set: the consecutive distances,
/// wrapped as a non-empty vector.  Fails exactly when fewer than two
/// peaks were found.
pub fn spacings(peaks: &Vec<usize>) -> (r: Result<NonEmptyVec<usize>, EstimateError>)
    requires
        forall|i: int| 0 <= i && i + 1 < peaks@.len() ==> #[trigger] peaks@[i] <= peaks@[i + 1],
    ensures
        peaks@.len() < 2 ==> (r matches Err(e) && e == EstimateError::EmptySpacingSet),
        peaks@.len() >= 2 ==> (r matches Ok(s) && s.wf() && s@ == spec_diff(peaks@)),
{
    let d = diff(peaks);
    match NonEmptyVec::new(d) {
        None => Err(EstimateError::EmptySpacingSet),
        Some(s) => Ok(s),
    }
}

/// Spacings of a strictly increasing, bounded peak set lie in `1 ..= n`.
proof fn lemma_spacing_bounds(p: Seq<usize>, n: usize)
    requires
        forall|i: int, j: int| 0 <= i < j < p.len() ==> #[trigger] p[i] < #[trigger] p[j],
        forall|i: int| 0 <= i < p.len() ==> #[trigger] p[i] <= n,
    ensures
        forall|i: int|
            0 <= i < spec_diff(p).len() ==> 1 <= #[trigger] spec_diff(p)[i] && spec_diff(p)[i]
                <= n,
{
    assert forall|i: int|
        0 <= i < spec_diff(p).len() implies 1 <= #[trigger] spec_diff(p)[i] && spec_diff(p)[i]
        <= n by {
        assert(p[i] < p[i + 1]);
        assert(spec_diff(p)[i] == p[i + 1] - p[i]);
    }
}

/// One axis's grid-size estimate from that axis's edge-strength signal,
/// compared only by order: peaks, spacings, median, reconciliation.
///
/// `orthogonal_dim` is the image dimension along the other axis, used
/// as the reconciliation tie-break.
pub fn estimate_axis(signal: &Vec<u32>, orthogonal_dim: usize, policy: BoundaryPolicy) -> (r:
    Result<usize, EstimateError>)
    requires
        signal@.len() >= 1,
        signal@.len() <= usize::MAX / 2,
    ensures
        spec_peaks(signal@, policy).len() < 2 ==> (r matches Err(e) && e
            == EstimateError::EmptySpacingSet),
        spec_peaks(signal@, policy).len() >= 2 ==> (r matches Ok(sz) && sz == spec_reconcile(
            spec_median(spec_diff(spec_peaks(signal@, policy))),
            orthogonal_dim,
        ) && sz >= 1),
{
    let peaks = find_peaks_indices(signal, policy);
    let mut sp = match spacings(&peaks) {
        Err(e) => {
            return Err(e);
        },
        Ok(s) => s,
    };
    let ghost sps = sp@;
    let ghost nsig = signal@.len();
    proof {
        lemma_spacing_bounds(peaks@, nsig as usize);
    }
    let med = get_median(&mut sp);
    proof {
        let half = sps.len() as int / 2;
        match med {
            Median::Odd(a) => {
                lemma_sorted_of_element_bounds(sps, half, 1, nsig as usize);
            },
            Median::Even(a, b) => {
                lemma_sorted_of_element_bounds(sps, half - 1, 1, nsig as usize);
                lemma_sorted_of_element_bounds(sps, half, 1, nsig as usize);
            },
        }
    }
    let sz = reconcile(med, orthogonal_dim);
    Ok(sz)
}

/// One axis's estimate as a value: the reconciled median of the
/// spacings of the signal's peak set.
pub open spec fn spec_axis_estimate(s: Seq<u32>, dim: usize, policy: BoundaryPolicy) -> usize {
    spec_reconcile(spec_median(spec_diff(spec_peaks(s, policy))), dim)
}

/// Combines the two axis estimates into the final pixel size
/// `gcd(h, v)`, which must evenly divide both image dimensions; an
/// estimate that does not is reported, never truncated.
pub fn final_pixel_size(h: usize, v: usize, width: usize, height: usize) -> (r: Result<
    usize,
    EstimateError,
>)
    requires
        h >= 1,
        v >= 1,
    ensures
        ({
            let g = spec_gcd(h as nat, v as nat);
            &&& (width as nat % g == 0 && height as nat % g == 0) ==> (r matches Ok(x) && x == g
                && x >= 1)
            &&& !(width as nat % g == 0 && height as nat % g == 0) ==> (r matches Err(e) && e
                == EstimateError::IndivisibleDimension)
        }),
{
    let g = gcd(h, v);
    proof {
        lemma_gcd_pos(h as nat, v as nat);
    }
    if width % g == 0 && height % g == 0 {
        Ok(g)
    } else {
        Err(EstimateError::IndivisibleDimension)
    }
}

/// The numeric pipeline after edge detection: an estimate per axis,
/// each reconciled against the orthogonal image dimension, combined by
/// greatest common divisor and held against both dimensions.
///
/// `h_signal` runs along the width (one sample per column boundary) and
/// is reconciled against `height`; `v_signal` runs along the height and
/// is reconciled against `width`.
pub fn estimate_from_signals(
    h_signal: &Vec<u32>,
    v_signal: &Vec<u32>,
    width: usize,
    height: usize,
    policy: BoundaryPolicy,
) -> (r: Result<usize, EstimateError>)
    requires
        h_signal@.len() >= 1,
        v_signal@.len() >= 1,
        h_signal@.len() <= usize::MAX / 2,
        v_signal@.len() <= usize::MAX / 2,
    ensures
        (spec_peaks(h_signal@, policy).len() < 2 || spec_peaks(v_signal@, policy).len() < 2) ==> (
        r matches Err(e) && e == EstimateError::EmptySpacingSet),
        (spec_peaks(h_signal@, policy).len() >= 2 && spec_peaks(v_signal@, policy).len() >= 2)
            ==> ({
            let hs = spec_axis_estimate(h_signal@, height, policy);
            let vs = spec_axis_estimate(v_signal@, width, policy);
            let g = spec_gcd(hs as nat, vs as nat);
            &&& (width as nat % g == 0 && height as nat % g == 0) ==> (r matches Ok(x) && x == g
                && x >= 1)
            &&& !(width as nat % g == 0 && height as nat % g == 0) ==> (r matches Err(e) && e
                == EstimateError::IndivisibleDimension)
        }),
{
    let h_est = match estimate_axis(h_signal, height, policy) {
        Err(e) => {
            return Err(e);
        },
        Ok(x) => x,
    };
    let v_est = match estimate_axis(v_signal, width, policy) {
        Err(e) => {
            return Err(e);
        },
        Ok(x) => x,
    };
    final_pixel_size(h_est, v_est, width, height)
}

} // verus!
