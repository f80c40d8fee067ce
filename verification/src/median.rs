//! The median computor: exact medians without a full sort.
//!
//! An odd-length sequence has a single middle element; an even-length
//! one has a middle pair, which is returned unreduced so the caller can
//! choose its own reduction rule.

use crate::nonempty::NonEmptyVec;
use crate::order::{lemma_sorted_of_ensures, lemma_sorted_of_permutation, sorted_of};
use crate::select::{select_unchecked, PivotPolicy};
use vstd::prelude::*;

verus! {

/// The median of a sequence: one middle element, or the middle pair.
#[derive(Debug, Clone, Copy, PartialEq, Eq)]
pub enum Median<T> {
    /// The single middle element of an odd-length sequence.
    Odd(T),
    /// The two middle elements of an even-length sequence, smaller
    /// first.
    Even(T, T),
}

impl<T> Median<T> {
    /// Collapses to one value: an odd median stands as it is, an even
    /// one is reduced through `f`.
    pub fn reduce<F: FnOnce(T, T) -> T>(self, f: F) -> (r: T)
        requires
            self matches Median::Even(a, b) ==> call_requires(f, (a, b)),
        ensures
            self matches Median::Odd(a) ==> r == a,
            self matches Median::Even(a, b) ==> call_ensures(f, (a, b), r),
    {
        match self {
            Median::Odd(a) => a,
            Median::Even(a, b) => f(a, b),
        }
    }

    /// Curried form of [`Median::reduce`]: turns a reduction of the
    /// middle pair into a reduction of a whole median.
    pub fn reduce_with<F: FnOnce(T, T) -> T>(f: F) -> (g: impl FnOnce(Median<T>) -> T)
        ensures
            forall|m: Median<T>|
                (m matches Median::Even(a, b) ==> call_requires(f, (a, b))) ==> call_requires(
                    g,
                    (m,),
                ),
            forall|m: Median<T>, r: T|
                call_ensures(g, (m,), r) ==> ((m matches Median::Odd(a) ==> r == a) && (
                m matches Median::Even(a, b) ==> call_ensures(f, (a, b), r))),
    {
        (move |med: Median<T>| -> (r: T)
            requires
                med matches Median::Even(a, b) ==> call_requires(f, (a, b)),
            ensures
                med matches Median::Odd(a) ==> r == a,
                med matches Median::Even(a, b) ==> call_ensures(f, (a, b), r),
            {
                med.reduce(f)
            })
    }
}

impl Median<usize> {
    /// The middle pair added together; an odd median stands as it is.
    pub fn sum(self) -> (r: usize)
        requires
            self matches Median::Even(a, b) ==> a + b <= usize::MAX,
        ensures
            self matches Median::Odd(a) ==> r == a,
            self matches Median::Even(a, b) ==> r == a + b,
    {
        self.reduce(
            (|a: usize, b: usize| -> (r: usize)
                requires
                    a + b <= usize::MAX,
                ensures
                    r == a + b,
                {
                    a + b
                }),
        )
    }

    /// The mean of the middle pair, rounded down; an odd median stands
    /// as it is.
    pub fn get(self) -> (r: usize)
        requires
            self matches Median::Even(a, b) ==> a + b <= usize::MAX,
        ensures
            self matches Median::Odd(a) ==> r == a,
            self matches Median::Even(a, b) ==> r == (a + b) / 2,
    {
        self.reduce(
            (|a: usize, b: usize| -> (r: usize)
                requires
                    a + b <= usize::MAX,
                ensures
                    r == (a + b) / 2,
                {
                    (a + b) / 2
                }),
        )
    }
}

/// The textbook median of a non-empty sequence: the middle element of a
/// fully sorted copy when the length is odd, the two middle elements,
/// in order, when it is even.
pub open spec fn spec_median(s: Seq<usize>) -> Median<usize>
    recommends
        s.len() >= 1,
{
    if s.len() % 2 == 1 {
        Median::Odd(sorted_of(s)[s.len() as int / 2])
    } else {
        Median::Even(sorted_of(s)[s.len() as int / 2 - 1], sorted_of(s)[s.len() as int / 2])
    }
}

/// The exact median of `arr`, by one selection call for an odd length
/// and two for an even one; `arr` is left a permutation of itself.
pub fn get_median(arr: &mut NonEmptyVec<usize>) -> (m: Median<usize>)
    requires
        old(arr).wf(),
    ensures
        final(arr).wf(),
        final(arr)@.len() == old(arr)@.len(),
        final(arr)@.to_multiset() == old(arr)@.to_multiset(),
        m == spec_median(old(arr)@),
        m matches Median::Even(a, b) ==> a <= b,
{
    let ghost s0 = arr@;
    let v = arr.as_mut_vec();
    let k = v.len() / 2;
    if v.len() % 2 == 0 {
        let smaller = select_unchecked(v, k - 1, PivotPolicy::MedianOfThree);
        let ghost s1 = v@;
        let bigger = select_unchecked(v, k, PivotPolicy::MedianOfThree);
        proof {
            lemma_sorted_of_permutation(s0, s1);
            lemma_sorted_of_ensures(s0);
        }
        Median::Even(smaller, bigger)
    } else {
        let med = select_unchecked(v, k, PivotPolicy::MedianOfThree);
        Median::Odd(med)
    }
}

} // verus!
