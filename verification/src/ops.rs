//! The dispatch layer: the two caller-facing operations of the algebra.
//! `multiply` maps `A * x` onto the generalized multiply kernel with unit
//! scale and zero addend scale; `outer_product` maps `x * op(y)` onto the
//! rank-1 update kernels over a zero-filled result, selecting the plain or
//! conjugate variant by the transpose marker.

use vstd::prelude::*;
use crate::attribute::{Trans, Transpose};
use crate::error::Error;
use crate::kernel;
use crate::kernel::{dot, op_row};
use crate::matrix::{Mat, Matrix};
use crate::scalar::Scalar;
use crate::vector::Vector;

verus! {

/// The elements of the vector a transpose marker wraps.
pub open spec fn trans_vals<T: Scalar, Y: Vector<T>>(t: Trans<&Y>) -> Seq<T> {
    match t {
        Trans::T(v) => v.vals(),
        Trans::H(v) => v.vals(),
    }
}

/// Whether a transpose marker asks for the conjugate transpose.
pub open spec fn trans_is_conj<T: Scalar, Y: Vector<T>>(t: Trans<&Y>) -> bool {
    match t {
        Trans::T(_) => false,
        Trans::H(_) => true,
    }
}

/// A vector of `n` additive identities.
fn zero_vec<T: Scalar>(n: usize) -> (v: Vec<T>)
    ensures
        v@.len() == n,
        forall|i: int| 0 <= i < n ==> v@[i] == T::spec_zero(),
{
    let mut v: Vec<T> = Vec::new();
    let mut k: usize = 0;
    while k < n
        invariant
            k <= n,
            v@.len() == k,
            forall|i: int| 0 <= i < k ==> v@[i] == T::spec_zero(),
        decreases n - k,
    {
        v.push(T::zero());
        k = k + 1;
    }
    v
}

/// Matrix times vector: for a matrix `a` with `m` rows and a vector `x`
/// whose length equals the column count of `a`, returns the vector of
/// length `m` whose element `i` is the inner product of row `i` of `a`
/// with `x`. Fails with `DimensionMismatch` exactly when the column count
/// of `a` differs from the length of `x`. Neither operand is changed.
pub fn multiply<T: Scalar, M: Matrix<T>, X: Vector<T>>(a: &M, x: &X) -> (res: Result<
    Vec<T>,
    Error,
>)
    requires
        a.wf(),
    ensures
        match res {
            Ok(y) => {
                &&& x.vals().len() == a.spec_cols()
                &&& y@.len() == a.spec_rows()
                &&& forall|i: int|
                    0 <= i < a.spec_rows() ==> y@[i] == dot(
                        op_row(Transpose::NoTrans, a, i),
                        x.vals(),
                    )
            },
            Err(e) => e == Error::DimensionMismatch && x.vals().len() != a.spec_cols(),
        },
{
    if x.len() != a.cols() {
        return Err(Error::DimensionMismatch);
    }
    let mut y: Vec<T> = zero_vec(a.rows());
    kernel::gemv(Transpose::NoTrans, T::one(), a, x, T::zero(), &mut y);
    proof {
        assert forall|i: int| 0 <= i < a.spec_rows() implies y@[i] == dot(
            op_row(Transpose::NoTrans, a, i),
            x.vals(),
        ) by {
            let d = dot(op_row(Transpose::NoTrans, a, i), x.vals());
            T::lemma_one_times(d);
            T::lemma_zero_times(T::spec_zero());
            T::lemma_plus_zero(d);
        }
    }
    Ok(y)
}

/// Vector times transpose-marked vector: the rank-1 outer product. For `x`
/// of length `n` and a marker wrapping `y` of length `m`, returns the `n`
/// by `m` matrix whose cell `(i, j)` is `x[i] * y[j]` under a plain
/// transpose marker, and `x[i] * conj(y[j])` under a conjugate-transpose
/// marker. Fails with `SizeOverflow` exactly when `n * m` does not fit a
/// `usize`. Neither operand is changed.
pub fn outer_product<T: Scalar, X: Vector<T>, Y: Vector<T>>(x: &X, y: Trans<&Y>) -> (res: Result<
    Mat<T>,
    Error,
>)
    ensures
        match res {
            Ok(a) => {
                &&& a.wf()
                &&& a.spec_rows() == x.vals().len()
                &&& a.spec_cols() == trans_vals(y).len()
                &&& x.vals().len() * trans_vals(y).len() <= usize::MAX
                &&& forall|i: int, j: int|
                    0 <= i < x.vals().len() && 0 <= j < trans_vals(y).len() ==> a.entry(i, j) == (
                    if trans_is_conj(y) {
                        T::spec_times(x.vals()[i], T::spec_conj(trans_vals(y)[j]))
                    } else {
                        T::spec_times(x.vals()[i], trans_vals(y)[j])
                    })
            },
            Err(e) => e == Error::SizeOverflow && x.vals().len() * trans_vals(y).len()
                > usize::MAX,
        },
{
    let n = x.len();
    let m = match &y {
        Trans::T(v) => v.len(),
        Trans::H(v) => v.len(),
    };
    let mut a: Mat<T> = match Mat::new(n, m) {
        Ok(a) => a,
        Err(e) => {
            return Err(e);
        },
    };
    match y {
        Trans::T(v) => kernel::ger(T::one(), x, v, &mut a),
        Trans::H(v) => kernel::gerc(T::one(), x, v, &mut a),
    }
    proof {
        assert forall|i: int, j: int|
            0 <= i < x.vals().len() && 0 <= j < trans_vals(y).len() implies a.entry(i, j) == (
        if trans_is_conj(y) {
            T::spec_times(x.vals()[i], T::spec_conj(trans_vals(y)[j]))
        } else {
            T::spec_times(x.vals()[i], trans_vals(y)[j])
        }) by {
            let yj = if trans_is_conj(y) {
                T::spec_conj(trans_vals(y)[j])
            } else {
                trans_vals(y)[j]
            };
            let p = T::spec_times(x.vals()[i], yj);
            T::lemma_one_times(p);
            T::lemma_zero_plus(T::spec_times(T::spec_one(), p));
        }
    }
    Ok(a)
}

} // verus!
