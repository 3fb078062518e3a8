//! The numeric kernels: generalized matrix-vector multiply (`gemv`), the
//! rank-1 update (`ger`) and the rank-1 conjugate update (`gerc`). Each is
//! proved against the textbook definition: `gemv` leaves
//! `alpha * op(A) * x + beta * y` in the result buffer, and the rank-1
//! updates add `alpha * x[i] * y[j]` (or its conjugate variant) to every
//! cell.

use vstd::prelude::*;
use crate::attribute::Transpose;
use crate::matrix::Matrix;
use crate::scalar::Scalar;
use crate::vector::Vector;

verus! {

/// The inner product of two equally long sequences of scalars, summed left
/// to right from the additive identity.
pub open spec fn dot<T: Scalar>(a: Seq<T>, b: Seq<T>) -> T
    recommends
        a.len() == b.len(),
    decreases a.len(),
{
    if a.len() == 0 {
        T::spec_zero()
    } else {
        T::spec_plus(dot(a.drop_last(), b.drop_last()), T::spec_times(a.last(), b.last()))
    }
}

/// Row count of `op(A)` for a transpose tag.
pub open spec fn op_rows<T: Scalar, M: Matrix<T>>(t: Transpose, a: &M) -> nat {
    match t {
        Transpose::NoTrans => a.spec_rows(),
        Transpose::Trans => a.spec_cols(),
        Transpose::ConjTrans => a.spec_cols(),
    }
}

/// Column count of `op(A)` for a transpose tag.
pub open spec fn op_cols<T: Scalar, M: Matrix<T>>(t: Transpose, a: &M) -> nat {
    match t {
        Transpose::NoTrans => a.spec_cols(),
        Transpose::Trans => a.spec_rows(),
        Transpose::ConjTrans => a.spec_rows(),
    }
}

/// The element of `op(A)` at row `i`, column `j`: the element itself, its
/// mirror across the diagonal, or the conjugate of the mirror.
pub open spec fn op_entry<T: Scalar, M: Matrix<T>>(t: Transpose, a: &M, i: int, j: int) -> T {
    match t {
        Transpose::NoTrans => a.entry(i, j),
        Transpose::Trans => a.entry(j, i),
        Transpose::ConjTrans => T::spec_conj(a.entry(j, i)),
    }
}

/// Row `i` of `op(A)` as a sequence.
pub open spec fn op_row<T: Scalar, M: Matrix<T>>(t: Transpose, a: &M, i: int) -> Seq<T> {
    Seq::new(op_cols(t, a), |j: int| op_entry(t, a, i, j))
}

/// Extending both operands of a dot product by one element adds that
/// element pair's product.
proof fn lemma_dot_extend<T: Scalar>(a: Seq<T>, b: Seq<T>, j: int)
    requires
        0 <= j < a.len(),
        j < b.len(),
    ensures
        dot(a.take(j + 1), b.take(j + 1)) == T::spec_plus(
            dot(a.take(j), b.take(j)),
            T::spec_times(a[j], b[j]),
        ),
{
    assert(a.take(j + 1).drop_last() =~= a.take(j));
    assert(b.take(j + 1).drop_last() =~= b.take(j));
    assert(a.take(j + 1).last() == a[j]);
    assert(b.take(j + 1).last() == b[j]);
}

/// Generalized matrix-vector multiply: overwrites `y` with
/// `alpha * op(a) * x + beta * y`, where `op` is selected by the transpose
/// tag.
pub fn gemv<T: Scalar, M: Matrix<T>, X: Vector<T>>(
    t: Transpose,
    alpha: T,
    a: &M,
    x: &X,
    beta: T,
    y: &mut Vec<T>,
)
    requires
        a.wf(),
        x.vals().len() == op_cols(t, a),
        old(y)@.len() == op_rows(t, a),
    ensures
        final(y)@.len() == old(y)@.len(),
        forall|i: int|
            0 <= i < old(y)@.len() ==> final(y)@[i] == T::spec_plus(
                T::spec_times(alpha, dot(op_row(t, a, i), x.vals())),
                T::spec_times(beta, old(y)@[i]),
            ),
{
    let m = match t {
        Transpose::NoTrans => a.rows(),
        Transpose::Trans => a.cols(),
        Transpose::ConjTrans => a.cols(),
    };
    let n = match t {
        Transpose::NoTrans => a.cols(),
        Transpose::Trans => a.rows(),
        Transpose::ConjTrans => a.rows(),
    };
    let mut i: usize = 0;
    while i < m
        invariant
            i <= m,
            m == op_rows(t, a),
            n == op_cols(t, a),
            a.wf(),
            x.vals().len() == n,
            y@.len() == m,
            old(y)@.len() == m,
            forall|k: int|
                0 <= k < i ==> y@[k] == T::spec_plus(
                    T::spec_times(alpha, dot(op_row(t, a, k), x.vals())),
                    T::spec_times(beta, old(y)@[k]),
                ),
            forall|k: int| i <= k < m ==> y@[k] == old(y)@[k],
        decreases m - i,
    {
        let mut acc = T::zero();
        let mut j: usize = 0;
        while j < n
            invariant
                j <= n,
                m == op_rows(t, a),
                n == op_cols(t, a),
                a.wf(),
                x.vals().len() == n,
                i < m,
                acc == dot(op_row(t, a, i as int).take(j as int), x.vals().take(j as int)),
            decreases n - j,
        {
            let aij = match t {
                Transpose::NoTrans => a.get(i, j),
                Transpose::Trans => a.get(j, i),
                Transpose::ConjTrans => a.get(j, i).conj(),
            };
            proof {
                assert(aij == op_row(t, a, i as int)[j as int]);
                lemma_dot_extend(op_row(t, a, i as int), x.vals(), j as int);
            }
            acc = acc.plus(aij.times(x.get(j)));
            j = j + 1;
        }
        proof {
            assert(op_row(t, a, i as int).take(n as int) =~= op_row(t, a, i as int));
            assert(x.vals().take(n as int) =~= x.vals());
        }
        let yi = y[i];
        y[i] = alpha.times(acc).plus(beta.times(yi));
        i = i + 1;
    }
}

/// What a rank-1 update leaves in one cell: the old value plus
/// `alpha * xi * yj`.
pub open spec fn rank1_cell<T: Scalar>(orig: T, alpha: T, xi: T, yj: T) -> T {
    T::spec_plus(orig, T::spec_times(alpha, T::spec_times(xi, yj)))
}

/// Shared body of the two rank-1 updates; `conjugate` selects whether the
/// second operand's elements are conjugated first.
fn rank1<T: Scalar, X: Vector<T>, Y: Vector<T>, M: Matrix<T>>(
    alpha: T,
    x: &X,
    y: &Y,
    a: &mut M,
    conjugate: bool,
)
    requires
        old(a).wf(),
        x.vals().len() == old(a).spec_rows(),
        y.vals().len() == old(a).spec_cols(),
    ensures
        final(a).wf(),
        final(a).spec_rows() == old(a).spec_rows(),
        final(a).spec_cols() == old(a).spec_cols(),
        forall|i: int, j: int|
            0 <= i < old(a).spec_rows() && 0 <= j < old(a).spec_cols() ==> final(a).entry(i, j)
                == rank1_cell(
                old(a).entry(i, j),
                alpha,
                x.vals()[i],
                if conjugate {
                    T::spec_conj(y.vals()[j])
                } else {
                    y.vals()[j]
                },
            ),
{
    let m = a.rows();
    let n = a.cols();
    let mut i: usize = 0;
    while i < m
        invariant
            i <= m,
            a.wf(),
            m == a.spec_rows(),
            n == a.spec_cols(),
            a.spec_rows() == old(a).spec_rows(),
            a.spec_cols() == old(a).spec_cols(),
            x.vals().len() == m,
            y.vals().len() == n,
            forall|r: int, c: int|
                0 <= r < i && 0 <= c < n ==> a.entry(r, c) == rank1_cell(
                    old(a).entry(r, c),
                    alpha,
                    x.vals()[r],
                    if conjugate {
                        T::spec_conj(y.vals()[c])
                    } else {
                        y.vals()[c]
                    },
                ),
            forall|r: int, c: int|
                i <= r < m && 0 <= c < n ==> a.entry(r, c) == old(a).entry(r, c),
        decreases m - i,
    {
        let xi = x.get(i);
        let mut j: usize = 0;
        while j < n
            invariant
                j <= n,
                i < m,
                a.wf(),
                m == a.spec_rows(),
                n == a.spec_cols(),
                a.spec_rows() == old(a).spec_rows(),
                a.spec_cols() == old(a).spec_cols(),
                x.vals().len() == m,
                y.vals().len() == n,
                xi == x.vals()[i as int],
                forall|r: int, c: int|
                    0 <= r < i && 0 <= c < n ==> a.entry(r, c) == rank1_cell(
                        old(a).entry(r, c),
                        alpha,
                        x.vals()[r],
                        if conjugate {
                            T::spec_conj(y.vals()[c])
                        } else {
                            y.vals()[c]
                        },
                    ),
                forall|c: int|
                    0 <= c < j ==> a.entry(i as int, c) == rank1_cell(
                        old(a).entry(i as int, c),
                        alpha,
                        x.vals()[i as int],
                        if conjugate {
                            T::spec_conj(y.vals()[c])
                        } else {
                            y.vals()[c]
                        },
                    ),
                forall|c: int| j <= c < n ==> a.entry(i as int, c) == old(a).entry(i as int, c),
                forall|r: int, c: int|
                    i < r < m && 0 <= c < n ==> a.entry(r, c) == old(a).entry(r, c),
            decreases n - j,
        {
            let yj = if conjugate {
                y.get(j).conj()
            } else {
                y.get(j)
            };
            let orig = a.get(i, j);
            a.set(i, j, orig.plus(alpha.times(xi.times(yj))));
            j = j + 1;
        }
        i = i + 1;
    }
}

/// Rank-1 update: adds `alpha * x[i] * y[j]` to every cell of `a`.
pub fn ger<T: Scalar, X: Vector<T>, Y: Vector<T>, M: Matrix<T>>(alpha: T, x: &X, y: &Y, a: &mut M)
    requires
        old(a).wf(),
        x.vals().len() == old(a).spec_rows(),
        y.vals().len() == old(a).spec_cols(),
    ensures
        final(a).wf(),
        final(a).spec_rows() == old(a).spec_rows(),
        final(a).spec_cols() == old(a).spec_cols(),
        forall|i: int, j: int|
            0 <= i < old(a).spec_rows() && 0 <= j < old(a).spec_cols() ==> final(a).entry(i, j)
                == rank1_cell(old(a).entry(i, j), alpha, x.vals()[i], y.vals()[j]),
{
    rank1(alpha, x, y, a, false);
}

/// Rank-1 conjugate update: adds `alpha * x[i] * conj(y[j])` to every cell
/// of `a`.
pub fn gerc<T: Scalar, X: Vector<T>, Y: Vector<T>, M: Matrix<T>>(alpha: T, x: &X, y: &Y, a: &mut M)
    requires
        old(a).wf(),
        x.vals().len() == old(a).spec_rows(),
        y.vals().len() == old(a).spec_cols(),
    ensures
        final(a).wf(),
        final(a).spec_rows() == old(a).spec_rows(),
        final(a).spec_cols() == old(a).spec_cols(),
        forall|i: int, j: int|
            0 <= i < old(a).spec_rows() && 0 <= j < old(a).spec_cols() ==> final(a).entry(i, j)
                == rank1_cell(old(a).entry(i, j), alpha, x.vals()[i], T::spec_conj(y.vals()[j])),
{
    rank1(alpha, x, y, a, true);
}

} // verus!
