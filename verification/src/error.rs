//! Failures of the algebra: shape mismatches, out-of-range indexing and
//! allocation sizes that do not fit the address space. All are synchronous
//! and local; an operation either completes with a valid result or fails
//! before touching any result buffer.

use vstd::prelude::*;

verus! {

#[derive(Clone, Copy, PartialEq, Eq, Structural, Debug)]
pub enum Error {
    /// Operand shapes are incompatible for the requested operation.
    DimensionMismatch,
    /// A row or column index lies outside the declared extents.
    IndexOutOfBounds,
    /// A requested buffer length exceeds what a `usize` can represent.
    SizeOverflow,
}

} // verus!
