//! A vector wrapper that rules out emptiness at construction.
//!
//! The spacing statistics downstream need at least one sample; feeding
//! them is only possible through this type, whose constructor fails
//! exactly on an empty vector.

use vstd::prelude::*;

verus! {

/// A vector holding at least one element.
///
/// Non-emptiness is recorded by [`NonEmptyVec::wf`], which every
/// constructor establishes; functions taking the type demand it and
/// preserve it.
#[derive(Debug, Clone)]
pub struct NonEmptyVec<T> {
    items: Vec<T>,
}

impl<T> View for NonEmptyVec<T> {
    type V = Seq<T>;

    closed spec fn view(&self) -> Seq<T> {
        self.items@
    }
}

impl<T> NonEmptyVec<T> {
    /// The non-emptiness invariant.
    pub open spec fn wf(&self) -> bool {
        self@.len() >= 1
    }

    /// Wraps `v`, failing exactly when `v` is empty.
    pub fn new(v: Vec<T>) -> (r: Option<NonEmptyVec<T>>)
        ensures
            v@.len() == 0 <==> r is None,
            v@.len() >= 1 ==> (r matches Some(n) && n@ == v@ && n.wf()),
    {
        if v.len() == 0 {
            None
        } else {
            Some(NonEmptyVec { items: v })
        }
    }

    /// The number of elements, at least one.
    pub fn len(&self) -> (r: usize)
        requires
            self.wf(),
        ensures
            r == self@.len(),
            r >= 1,
    {
        self.items.len()
    }

    /// The element at `i`.
    pub fn index(&self, i: usize) -> (r: &T)
        requires
            i < self@.len(),
        ensures
            *r == self@[i as int],
    {
        &self.items[i]
    }

    /// Gives the elements up as a plain vector.
    pub fn into_vec(self) -> (r: Vec<T>)
        ensures
            r@ == self@,
    {
        self.items
    }

    /// Mutable access to the elements; the caller answers for keeping
    /// the vector non-empty.
    pub(crate) fn as_mut_vec(&mut self) -> (r: &mut Vec<T>)
        ensures
            r@ == old(self)@,
            final(self)@ == final(r)@,
    {
        &mut self.items
    }
}

} // verus!
