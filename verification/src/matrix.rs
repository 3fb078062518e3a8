//! The matrix capability and the owned dense row-major storage type.
//!
//! `Matrix` is the interface any storage layout implements to take part in
//! the algebra: dimensions, element access and layout metadata. `Mat` is
//! the concrete owned implementation: one contiguous buffer of
//! `rows * cols` scalars, row `i` occupying the sub-range
//! `[i * cols, i * cols + cols)` — a column-count stride, so non-square
//! matrices are laid out row-major contiguously and row views never
//! overlap.

use vstd::prelude::*;
use crate::attribute::{Order, Transpose};
use crate::error::Error;
use crate::scalar::Scalar;

verus! {

broadcast use vstd::std_specs::vec::axiom_spec_len;

/// The matrix capability: dimensions, element access and layout metadata.
/// Well-formedness (`wf`) is established at construction and preserved by
/// every mutation, so a kernel may rely on every index below the declared
/// extents being backed by storage.
pub trait Matrix<T: Scalar>: Sized {
    /// The storage invariant of the implementing type.
    spec fn wf(&self) -> bool;

    /// Number of rows, as a mathematical value.
    spec fn spec_rows(&self) -> nat;

    /// Number of columns, as a mathematical value.
    spec fn spec_cols(&self) -> nat;

    /// The element at row `i`, column `j`, as a mathematical value.
    spec fn entry(&self, i: int, j: int) -> T
        recommends
            0 <= i < self.spec_rows(),
            0 <= j < self.spec_cols(),
    ;

    /// Number of rows.
    fn rows(&self) -> (r: usize)
        requires
            self.wf(),
        ensures
            r == self.spec_rows(),
    ;

    /// Number of columns.
    fn cols(&self) -> (r: usize)
        requires
            self.wf(),
        ensures
            r == self.spec_cols(),
    ;

    /// The element at row `i`, column `j`.
    fn get(&self, i: usize, j: usize) -> (r: T)
        requires
            self.wf(),
            i < self.spec_rows(),
            j < self.spec_cols(),
        ensures
            r == self.entry(i as int, j as int),
    ;

    /// Overwrites the element at row `i`, column `j`, leaving every other
    /// element and both dimensions unchanged.
    fn set(&mut self, i: usize, j: usize, v: T)
        requires
            old(self).wf(),
            i < old(self).spec_rows(),
            j < old(self).spec_cols(),
        ensures
            final(self).wf(),
            final(self).spec_rows() == old(self).spec_rows(),
            final(self).spec_cols() == old(self).spec_cols(),
            final(self).entry(i as int, j as int) == v,
            forall|r: int, c: int|
                0 <= r < old(self).spec_rows() && 0 <= c < old(self).spec_cols()
                    && !(r == i && c == j) ==> final(self).entry(r, c) == old(self).entry(r, c),
    ;

    /// Stride between consecutive rows (or columns) of the backing buffer;
    /// defaults to the row count.
    fn lead_dim(&self) -> (r: usize)
        requires
            self.wf(),
        ensures
            r == self.spec_rows(),
    {
        self.rows()
    }

    /// Physical layout of the backing storage; defaults to row-major.
    fn order(&self) -> (r: Order)
        ensures
            r == Order::RowMajor,
    {
        Order::RowMajor
    }

    /// Operation tag the operand carries into a kernel; defaults to none.
    fn transpose(&self) -> (r: Transpose)
        ensures
            r == Transpose::NoTrans,
    {
        Transpose::NoTrans
    }
}

/// A band matrix additionally declares how many sub- and super-diagonals
/// carry elements. This is an extension point for banded storage types;
/// the dense type does not implement it.
pub trait BandMatrix<T: Scalar>: Matrix<T> {
    /// Number of populated diagonals below the main one, as a mathematical
    /// value.
    spec fn spec_sub_diagonals(&self) -> nat;

    /// Number of populated diagonals above the main one, as a mathematical
    /// value.
    spec fn spec_sup_diagonals(&self) -> nat;

    /// Number of populated diagonals below the main one.
    fn sub_diagonals(&self) -> (r: usize)
        ensures
            r == self.spec_sub_diagonals(),
    ;

    /// Number of populated diagonals above the main one.
    fn sup_diagonals(&self) -> (r: usize)
        ensures
            r == self.spec_sup_diagonals(),
    ;
}

/// Owned dense row-major matrix: a single contiguous buffer of
/// `rows * cols` scalars.
pub struct Mat<T> {
    data: Vec<T>,
    rows: usize,
    cols: usize,
}

/// A flat index stays below the buffer length.
proof fn lemma_flat_index_bound(i: int, j: int, r: int, c: int)
    requires
        0 <= i < r,
        0 <= j < c,
    ensures
        0 <= i * c + j,
        i * c + j < r * c,
        i * c + c <= r * c,
{
    assert(0 <= i * c + j && i * c + j < r * c && i * c + c <= r * c) by (nonlinear_arith)
        requires
            0 <= i < r,
            0 <= j < c,
    ;
}

/// A whole row's flat range stays within the buffer length.
proof fn lemma_row_range(i: int, r: int, c: int)
    requires
        0 <= i < r,
        0 <= c,
    ensures
        0 <= i * c,
        i * c + c <= r * c,
{
    assert(0 <= i * c && i * c + c <= r * c) by (nonlinear_arith)
        requires
            0 <= i < r,
            0 <= c,
    ;
}

/// Distinct cells have distinct flat indices.
proof fn lemma_flat_index_injective(i1: int, j1: int, i2: int, j2: int, c: int)
    requires
        0 <= j1 < c,
        0 <= j2 < c,
        0 <= i1,
        0 <= i2,
        i1 * c + j1 == i2 * c + j2,
    ensures
        i1 == i2,
        j1 == j2,
{
    assert(i1 == i2 && j1 == j2) by (nonlinear_arith)
        requires
            0 <= j1 < c,
            0 <= j2 < c,
            0 <= i1,
            0 <= i2,
            i1 * c + j1 == i2 * c + j2,
    ;
}

impl<T: Scalar> Mat<T> {
    /// The backing buffer as a mathematical sequence, flat and row-major.
    pub closed spec fn flat(&self) -> Seq<T> {
        self.data@
    }
}

impl<T: Scalar> View for Mat<T> {
    type V = Seq<Seq<T>>;

    /// The matrix as a sequence of rows, each a sequence of scalars.
    open spec fn view(&self) -> Seq<Seq<T>> {
        Seq::new(
            self.spec_rows(),
            |i: int|
                Seq::new(
                    self.spec_cols(),
                    |j: int| self.flat()[i * self.spec_cols() as int + j],
                ),
        )
    }
}

impl<T: Scalar> Matrix<T> for Mat<T> {
    open spec fn wf(&self) -> bool {
        self.flat().len() == self.spec_rows() * self.spec_cols()
    }

    closed spec fn spec_rows(&self) -> nat {
        self.rows as nat
    }

    closed spec fn spec_cols(&self) -> nat {
        self.cols as nat
    }

    open spec fn entry(&self, i: int, j: int) -> T {
        self.flat()[i * self.spec_cols() as int + j]
    }

    fn rows(&self) -> (r: usize) {
        self.rows
    }

    fn cols(&self) -> (r: usize) {
        self.cols
    }

    fn get(&self, i: usize, j: usize) -> (r: T) {
        let len = self.data.len();
        proof {
            lemma_flat_index_bound(i as int, j as int, self.rows as int, self.cols as int);
            assert(i * self.cols as int + j < len);
        }
        self.data[i * self.cols + j]
    }

    fn set(&mut self, i: usize, j: usize, v: T) {
        let len = self.data.len();
        proof {
            lemma_flat_index_bound(i as int, j as int, self.rows as int, self.cols as int);
            assert(i * self.cols as int + j < len);
        }
        let k = i * self.cols + j;
        self.data[k] = v;
        proof {
            assert forall|r: int, c: int|
                0 <= r < old(self).spec_rows() && 0 <= c < old(self).spec_cols()
                    && !(r == i && c == j) implies self.entry(r, c) == old(self).entry(r, c) by {
                lemma_flat_index_bound(r, c, self.rows as int, self.cols as int);
                if r * self.cols as int + c == k {
                    lemma_flat_index_injective(r, c, i as int, j as int, self.cols as int);
                }
            }
        }
    }
}

impl<T: Scalar> Mat<T> {
    /// Allocates a `m` by `n` matrix with every element set to `value`.
    /// Fails with `SizeOverflow` exactly when `m * n` does not fit a
    /// `usize`.
    pub fn fill(value: T, m: usize, n: usize) -> (res: Result<Mat<T>, Error>)
        ensures
            match res {
                Ok(a) => {
                    &&& a.wf()
                    &&& a.spec_rows() == m
                    &&& a.spec_cols() == n
                    &&& m * n <= usize::MAX
                    &&& forall|i: int, j: int| 0 <= i < m && 0 <= j < n ==> a.entry(i, j) == value
                },
                Err(e) => e == Error::SizeOverflow && m * n > usize::MAX,
            },
    {
        match m.checked_mul(n) {
            None => Err(Error::SizeOverflow),
            Some(len) => {
                let mut data: Vec<T> = Vec::new();
                let mut k: usize = 0;
                while k < len
                    invariant
                        k <= len,
                        data@.len() == k,
                        forall|q: int| 0 <= q < k ==> data@[q] == value,
                    decreases len - k,
                {
                    data.push(value);
                    k = k + 1;
                }
                let a = Mat { data, rows: m, cols: n };
                proof {
                    assert forall|i: int, j: int| 0 <= i < m && 0 <= j < n implies a.entry(i, j)
                        == value by {
                        lemma_flat_index_bound(i, j, m as int, n as int);
                    }
                }
                Ok(a)
            },
        }
    }

    /// Allocates a `m` by `n` matrix with every element set to the additive
    /// identity. Fails with `SizeOverflow` exactly when `m * n` does not
    /// fit a `usize`.
    pub fn new(m: usize, n: usize) -> (res: Result<Mat<T>, Error>)
        ensures
            match res {
                Ok(a) => {
                    &&& a.wf()
                    &&& a.spec_rows() == m
                    &&& a.spec_cols() == n
                    &&& m * n <= usize::MAX
                    &&& forall|i: int, j: int|
                        0 <= i < m && 0 <= j < n ==> a.entry(i, j) == T::spec_zero()
                },
                Err(e) => e == Error::SizeOverflow && m * n > usize::MAX,
            },
    {
        Mat::fill(T::zero(), m, n)
    }

    /// A contiguous immutable view of logical row `i`. Fails with
    /// `IndexOutOfBounds` exactly when `i` is not below the row count.
    pub fn row(&self, i: usize) -> (res: Result<&[T], Error>)
        requires
            self.wf(),
        ensures
            match res {
                Ok(s) => {
                    &&& i < self.spec_rows()
                    &&& s@.len() == self.spec_cols()
                    &&& forall|j: int| 0 <= j < self.spec_cols() ==> s@[j] == self.entry(i as int, j)
                },
                Err(e) => e == Error::IndexOutOfBounds && i >= self.spec_rows(),
            },
    {
        if i < self.rows {
            let len = self.data.len();
            proof {
                lemma_row_range(i as int, self.rows as int, self.cols as int);
                assert(i * self.cols as int + self.cols as int <= len);
            }
            let beg = i * self.cols;
            let s = vstd::slice::slice_subrange(self.data.as_slice(), beg, beg + self.cols);
            Ok(s)
        } else {
            Err(Error::IndexOutOfBounds)
        }
    }

    /// The element at row `i`, column `j`, checked. Fails with
    /// `IndexOutOfBounds` exactly when either index is out of range.
    pub fn get_cell(&self, i: usize, j: usize) -> (res: Result<T, Error>)
        requires
            self.wf(),
        ensures
            match res {
                Ok(v) => i < self.spec_rows() && j < self.spec_cols() && v == self.entry(
                    i as int,
                    j as int,
                ),
                Err(e) => e == Error::IndexOutOfBounds && (i >= self.spec_rows() || j
                    >= self.spec_cols()),
            },
    {
        if i < self.rows && j < self.cols {
            Ok(self.get(i, j))
        } else {
            Err(Error::IndexOutOfBounds)
        }
    }

    /// Overwrites the element at row `i`, column `j`, checked: every other
    /// element and both dimensions are left unchanged, and an out-of-range
    /// index fails with `IndexOutOfBounds` leaving the matrix untouched.
    pub fn set_cell(&mut self, i: usize, j: usize, v: T) -> (res: Result<(), Error>)
        requires
            old(self).wf(),
        ensures
            final(self).wf(),
            final(self).spec_rows() == old(self).spec_rows(),
            final(self).spec_cols() == old(self).spec_cols(),
            match res {
                Ok(()) => {
                    &&& i < old(self).spec_rows()
                    &&& j < old(self).spec_cols()
                    &&& final(self).entry(i as int, j as int) == v
                    &&& forall|r: int, c: int|
                        0 <= r < old(self).spec_rows() && 0 <= c < old(self).spec_cols()
                            && !(r == i && c == j) ==> final(self).entry(r, c) == old(self).entry(
                            r,
                            c,
                        )
                },
                Err(e) => {
                    &&& e == Error::IndexOutOfBounds
                    &&& (i >= old(self).spec_rows() || j >= old(self).spec_cols())
                    &&& *final(self) == *old(self)
                },
            },
    {
        if i < self.rows && j < self.cols {
            self.set(i, j, v);
            Ok(())
        } else {
            Err(Error::IndexOutOfBounds)
        }
    }

    /// The whole backing buffer, flat and row-major.
    pub fn as_slice(&self) -> (r: &[T])
        ensures
            r@ == self.flat(),
            self.wf() ==> r@.len() == self.spec_rows() * self.spec_cols(),
            forall|i: int, j: int|
                0 <= i < self.spec_rows() && 0 <= j < self.spec_cols() ==> r@[i
                    * self.spec_cols() as int + j] == self.entry(i, j),
    {
        self.data.as_slice()
    }

    /// A contiguous mutable view of logical row `i`: the returned slice
    /// holds the row's current values, and whatever the caller leaves in it
    /// becomes row `i`, every other row and both dimensions staying
    /// unchanged.
    pub fn row_mut(&mut self, i: usize) -> (r: &mut [T])
        requires
            old(self).wf(),
            i < old(self).spec_rows(),
        ensures
            r@.len() == old(self).spec_cols(),
            forall|j: int| 0 <= j < old(self).spec_cols() ==> r@[j] == old(self).entry(i as int, j),
            final(self).spec_rows() == old(self).spec_rows(),
            final(self).spec_cols() == old(self).spec_cols(),
            final(self).flat() == old(self).flat().subrange(
                0,
                i as int * old(self).spec_cols() as int,
            ) + final(r)@ + old(self).flat().subrange(
                i as int * old(self).spec_cols() as int + old(self).spec_cols() as int,
                old(self).flat().len() as int,
            ),
    {
        let len = self.data.len();
        proof {
            lemma_row_range(i as int, self.rows as int, self.cols as int);
            assert(i * self.cols as int + self.cols as int <= len);
        }
        let beg = i * self.cols;
        let cols = self.cols;
        let ghost old_flat = self.data@;
        let s = self.data.as_mut_slice();
        let (head, tail) = s.split_at_mut(beg);
        let (row, rest) = tail.split_at_mut(cols);
        proof {
            assert(row@ =~= old_flat.subrange(beg as int, beg as int + cols as int));
        }
        row
    }

    /// The whole backing buffer, flat and row-major, for mutation in
    /// place. The dimensions are untouched, and the buffer afterwards is
    /// whatever the caller left in the returned slice.
    pub fn as_mut_slice(&mut self) -> (r: &mut [T])
        ensures
            r@ == old(self).flat(),
            final(self).flat() == final(r)@,
            final(self).spec_rows() == old(self).spec_rows(),
            final(self).spec_cols() == old(self).spec_cols(),
    {
        self.data.as_mut_slice()
    }
}

impl<T: Scalar> Clone for Mat<T> {
    /// Deep copy: the clone owns a fresh buffer holding the same scalars
    /// under the same dimensions.
    fn clone(&self) -> (res: Self)
        ensures
            res.flat() == self.flat(),
            res.spec_rows() == self.spec_rows(),
            res.spec_cols() == self.spec_cols(),
            res@ == self@,
            self.wf() ==> res.wf(),
    {
        let n = self.data.len();
        let mut data: Vec<T> = Vec::new();
        let mut k: usize = 0;
        while k < n
            invariant
                k <= n,
                n == self.data@.len(),
                data@.len() == k,
                forall|q: int| 0 <= q < k ==> data@[q] == self.data@[q],
            decreases n - k,
        {
            data.push(self.data[k]);
            k = k + 1;
        }
        let res = Mat { data, rows: self.rows, cols: self.cols };
        proof {
            assert(res.flat() =~= self.flat());
            assert(res@ =~~= self@);
        }
        res
    }
}

impl<T: Scalar> PartialEq for Mat<T> {
    /// Structural value equality over dimensions and buffer contents.
    fn eq(&self, other: &Self) -> (r: bool) {
        if self.rows != other.rows || self.cols != other.cols {
            return false;
        }
        if self.data.len() != other.data.len() {
            return false;
        }
        let n = self.data.len();
        let mut k: usize = 0;
        while k < n
            invariant
                k <= n,
                n == self.data@.len(),
                n == other.data@.len(),
                forall|q: int| 0 <= q < k ==> self.data@[q] == other.data@[q],
            decreases n - k,
        {
            if !self.data[k].eq_val(other.data[k]) {
                proof {
                    assert(self.flat()[k as int] != other.flat()[k as int]);
                }
                return false;
            }
            k = k + 1;
        }
        proof {
            assert(self.flat() =~= other.flat());
        }
        true
    }
}

impl<T: Scalar> vstd::std_specs::cmp::PartialEqSpecImpl for Mat<T> {
    open spec fn obeys_eq_spec() -> bool {
        true
    }

    /// What `==` means on dense matrices: equal dimensions and equal
    /// buffer contents.
    open spec fn eq_spec(&self, other: &Self) -> bool {
        &&& self.spec_rows() == other.spec_rows()
        &&& self.spec_cols() == other.spec_cols()
        &&& self.flat() == other.flat()
    }
}

/// Aliasing freedom of cloning: when a copy holds the same view as its
/// original, overwriting one cell of the copy's view yields that value at
/// that cell, while every other cell — and every cell of the original's
/// view, the overwritten one included — still holds the original's value.
pub proof fn lemma_clone_mutation_isolated<T: Scalar>(
    orig: Seq<Seq<T>>,
    copy: Seq<Seq<T>>,
    i: int,
    j: int,
    v: T,
)
    requires
        copy == orig,
        0 <= i < orig.len(),
        0 <= j < orig[i].len(),
    ensures
        ({
            let mutated = copy.update(i, copy[i].update(j, v));
            &&& mutated[i][j] == v
            &&& forall|r: int, c: int|
                0 <= r < orig.len() && 0 <= c < orig[r].len() && !(r == i && c == j)
                    ==> #[trigger] mutated[r][c] == orig[r][c]
            &&& orig[i][j] == copy[i][j]
        }),
{
}

/// What replacing one row's sub-range of the flat buffer means cell by
/// cell: the matrix stays well formed, the spliced row holds the new
/// values, and every other row is unchanged. This is the shape `row_mut`
/// leaves a matrix in once the returned slice's borrow has ended.
pub proof fn lemma_row_splice<T: Scalar>(m0: Mat<T>, m1: Mat<T>, rowvals: Seq<T>, i: int)
    requires
        m0.wf(),
        0 <= i < m0.spec_rows(),
        m1.spec_rows() == m0.spec_rows(),
        m1.spec_cols() == m0.spec_cols(),
        rowvals.len() == m0.spec_cols(),
        m1.flat() == m0.flat().subrange(0, i * m0.spec_cols() as int) + rowvals + m0.flat()
            .subrange(
            i * m0.spec_cols() as int + m0.spec_cols() as int,
            m0.flat().len() as int,
        ),
    ensures
        m1.wf(),
        forall|j: int| 0 <= j < m0.spec_cols() ==> m1.entry(i, j) == rowvals[j],
        forall|p: int, q: int|
            0 <= p < m0.spec_rows() && 0 <= q < m0.spec_cols() && p != i ==> m1.entry(p, q)
                == m0.entry(p, q),
{
    let c = m0.spec_cols() as int;
    lemma_row_range(i, m0.spec_rows() as int, c);
    assert forall|p: int, q: int|
        0 <= p < m0.spec_rows() && 0 <= q < m0.spec_cols() && p != i implies m1.entry(p, q)
        == m0.entry(p, q) by {
        if p < i {
            assert(p * c + q < i * c) by (nonlinear_arith)
                requires
                    0 <= q < c,
                    0 <= p,
                    p < i,
            ;
        } else {
            assert(p * c + q >= i * c + c) by (nonlinear_arith)
                requires
                    0 <= q,
                    0 <= c,
                    p > i,
                    0 <= i,
            ;
            lemma_flat_index_bound(p, q, m0.spec_rows() as int, c);
        }
    }
}

/// Round trip of writes and row reads: a matrix whose every cell holds the
/// value of a given grid reads back exactly that grid, row by row.
pub proof fn lemma_rows_reproduce_grid<T: Scalar>(m: Mat<T>, g: Seq<Seq<T>>)
    requires
        m.wf(),
        g.len() == m.spec_rows(),
        forall|i: int| 0 <= i < g.len() ==> (#[trigger] g[i]).len() == m.spec_cols(),
        forall|i: int, j: int|
            0 <= i < g.len() && 0 <= j < m.spec_cols() ==> m.entry(i, j) == #[trigger] g[i][j],
    ensures
        m@ == g,
{
    assert(m@ =~~= g);
}

} // verus!
