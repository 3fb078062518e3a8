//! Layout and operation tags: storage order, transpose mode, and the
//! transient transpose marker wrapped around a borrowed vector at a call
//! site.

use vstd::prelude::*;

verus! {

/// Physical layout of a matrix's backing storage.
#[derive(Clone, Copy, PartialEq, Eq, Structural, Debug)]
pub enum Order {
    RowMajor,
    ColumnMajor,
}

/// Logical operation applied to an operand before a kernel uses it.
#[derive(Clone, Copy, PartialEq, Eq, Structural, Debug)]
pub enum Transpose {
    NoTrans,
    Trans,
    ConjTrans,
}

/// Transient, non-owning marker carried by an operand of the outer-product
/// dispatch: `T` asks for the plain transpose of the wrapped vector, `H`
/// for its conjugate transpose. It exists only as a call argument and is
/// never stored.
pub enum Trans<V> {
    T(V),
    H(V),
}

} // verus!
