//! Validation of a requested rank against a sequence length.
//!
//! `index_with` classifies an index into one of three outcomes — empty
//! sequence, in range, out of range — and only produces a value (through
//! the supplied closure) in the in-range case.

use vstd::prelude::*;

verus! {

/// Error of the checked selection surface: the requested rank lies at or
/// beyond the end of the sequence.
#[derive(Debug, Clone, Copy, Hash, Default, PartialEq, Eq, PartialOrd, Ord)]
pub struct OutOfBounds;

/// Outcome of validating an index against a sequence length.
#[derive(Debug, Clone, Copy, PartialEq, Eq, PartialOrd, Ord, Hash)]
pub enum IndexResult<T> {
    /// The sequence is empty, so no index is valid.
    Empty,
    /// The index is valid; holds the produced value.
    InRange(T),
    /// The sequence is non-empty but the index is at or past its end.
    OutOfRange,
}

impl<T> IndexResult<T> {
    /// Classifies `index` against `length`, calling `f` only when the
    /// index is in range.
    pub fn new<F: FnOnce() -> T>(index: usize, length: usize, f: F) -> (r: Self)
        requires
            length > 0 && index < length ==> call_requires(f, ()),
        ensures
            length == 0 ==> r is Empty,
            length > 0 && index < length ==> (r matches IndexResult::InRange(v) && call_ensures(
                f,
                (),
                v,
            )),
            length > 0 && index >= length ==> r is OutOfRange,
    {
        if length == 0 {
            Self::Empty
        } else if index < length {
            Self::InRange(f())
        } else {
            Self::OutOfRange
        }
    }

    /// Maps the three outcomes onto the conventional nested shape:
    /// `None` for an empty sequence, `Some(Ok(v))` for a valid index,
    /// `Some(Err(OutOfBounds))` for an invalid one.
    pub fn into_opt_res(self) -> (r: Option<Result<T, OutOfBounds>>)
        ensures
            match self {
                IndexResult::Empty => r is None,
                IndexResult::InRange(v) => r matches Some(q) && q matches Ok(w) && w == v,
                IndexResult::OutOfRange => r matches Some(q) && q is Err,
            },
    {
        match self {
            IndexResult::Empty => None,
            IndexResult::InRange(value) => Some(Ok(value)),
            IndexResult::OutOfRange => Some(Err(OutOfBounds)),
        }
    }

    /// Extracts the `Result` of a non-empty classification.
    pub fn unwrap(self) -> (r: Result<T, OutOfBounds>)
        requires
            !(self is Empty),
        ensures
            match self {
                IndexResult::Empty => false,
                IndexResult::InRange(v) => r matches Ok(w) && w == v,
                IndexResult::OutOfRange => r is Err,
            },
    {
        match self {
            IndexResult::Empty => unreached(),
            IndexResult::InRange(value) => Ok(value),
            IndexResult::OutOfRange => Err(OutOfBounds),
        }
    }

    /// Extracts the value of an in-range classification.
    pub fn unwrap2(self) -> (r: T)
        requires
            self is InRange,
        ensures
            self matches IndexResult::InRange(v) && r == v,
    {
        match self {
            IndexResult::InRange(value) => value,
            _ => unreached(),
        }
    }
}

/// Classifies `index` against `length`, producing a value through `f`
/// only when the index is in range.
pub fn index_with<T, F: FnOnce() -> T>(index: usize, length: usize, f: F) -> (r: IndexResult<T>)
    requires
        length > 0 && index < length ==> call_requires(f, ()),
    ensures
        length == 0 ==> r is Empty,
        length > 0 && index < length ==> (r matches IndexResult::InRange(v) && call_ensures(
            f,
            (),
            v,
        )),
        length > 0 && index >= length ==> r is OutOfRange,
{
    IndexResult::new(index, length, f)
}

} // verus!
