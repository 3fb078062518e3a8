//! The vector capability: any type exposing a length and element access
//! participates in the algebra as a one-dimensional operand. A vector
//! carries no transpose of its own; transpose intent is expressed at a call
//! site through the marker in `attribute`.

use vstd::prelude::*;
use crate::scalar::Scalar;

verus! {

/// A one-dimensional operand: a sequence of scalars reachable by index.
pub trait Vector<T: Scalar>: Sized {
    /// The elements, as a mathematical sequence.
    spec fn vals(&self) -> Seq<T>;

    /// Number of elements.
    fn len(&self) -> (r: usize)
        ensures
            r == self.vals().len(),
    ;

    /// The element at position `i`.
    fn get(&self, i: usize) -> (r: T)
        requires
            i < self.vals().len(),
        ensures
            r == self.vals()[i as int],
    ;
}

impl<T: Scalar> Vector<T> for Vec<T> {
    open spec fn vals(&self) -> Seq<T> {
        self@
    }

    fn len(&self) -> (r: usize) {
        Vec::len(self)
    }

    fn get(&self, i: usize) -> (r: T) {
        self[i]
    }
}

} // verus!
