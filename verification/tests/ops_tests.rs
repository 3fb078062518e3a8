use rblas::attribute::{Trans, Transpose};
use rblas::error::Error;
use rblas::kernel::{gemv, ger, gerc};
use rblas::matrix::{Mat, Matrix};
use rblas::ops::{multiply, outer_product};

fn filled(rows: usize, cols: usize, vals: &[i64]) -> Mat<i64> {
    assert_eq!(rows * cols, vals.len());
    let mut a = Mat::<i64>::new(rows, cols).unwrap();
    for i in 0..rows {
        for j in 0..cols {
            a.set_cell(i, j, vals[i * cols + j]).unwrap();
        }
    }
    a
}

#[test]
fn mul() {
    let a = filled(2, 2, &[2, -2, 2, -4]);
    let x: Vec<i64> = vec![2, 1];

    let y = multiply(&a, &x).unwrap();

    assert_eq!(y, vec![2, 0]);
}

#[test]
fn outer() {
    let x: Vec<i64> = vec![2, 1, 4];
    let y: Vec<i64> = vec![3, 6, -1];

    let a = outer_product(&x, Trans::T(&y)).unwrap();

    let result = filled(3, 3, &[6, 12, -2, 3, 6, -1, 12, 24, -4]);
    assert!(a == result);
}

#[test]
fn outer_conjugate_marker() {
    // On a real scalar type conjugation is the identity, so the
    // conjugate-transpose marker gives the same outer product.
    let x: Vec<i64> = vec![2, 1];
    let y: Vec<i64> = vec![5, -3, 7];

    let a = outer_product(&x, Trans::H(&y)).unwrap();

    let result = filled(2, 3, &[10, -6, 14, 5, -3, 7]);
    assert!(a == result);
    assert_eq!(a.rows(), 2);
    assert_eq!(a.cols(), 3);
}

#[test]
fn multiply_dimension_mismatch() {
    let a = filled(2, 2, &[1, 2, 3, 4]);
    let x: Vec<i64> = vec![1, 2, 3];
    assert_eq!(multiply(&a, &x).err().unwrap(), Error::DimensionMismatch);
    let empty: Vec<i64> = vec![];
    assert_eq!(multiply(&a, &empty).err().unwrap(), Error::DimensionMismatch);
}

#[test]
fn multiply_non_square() {
    // 2x3 matrix times length-3 vector.
    let a = filled(2, 3, &[1, 2, 3, 4, 5, 6]);
    let x: Vec<i64> = vec![1, 0, -1];
    let y = multiply(&a, &x).unwrap();
    assert_eq!(y, vec![-2, -2]);
}

#[test]
fn gemv_affine_form() {
    // y := alpha * A * x + beta * y with alpha = 2, beta = 3.
    let a = filled(2, 2, &[1, 2, 3, 4]);
    let x: Vec<i64> = vec![1, 1];
    let mut y: Vec<i64> = vec![10, 20];
    gemv(Transpose::NoTrans, 2, &a, &x, 3, &mut y);
    // rows of A dot x are [3, 7]; 2*[3,7] + 3*[10,20] = [36, 74]
    assert_eq!(y, vec![36, 74]);
}

#[test]
fn gemv_transposed() {
    // A is 2x3; op(A) = A^t is 3x2, so x has length 2 and y length 3.
    let a = filled(2, 3, &[1, 2, 3, 4, 5, 6]);
    let x: Vec<i64> = vec![1, -1];
    let mut y: Vec<i64> = vec![0, 0, 0];
    gemv(Transpose::Trans, 1, &a, &x, 0, &mut y);
    assert_eq!(y, vec![-3, -3, -3]);
}

#[test]
fn ger_accumulates() {
    // The rank-1 update adds onto the existing contents.
    let mut a = filled(2, 2, &[1, 1, 1, 1]);
    let x: Vec<i64> = vec![2, 3];
    let y: Vec<i64> = vec![10, 100];
    ger(1, &x, &y, &mut a);
    let expected = filled(2, 2, &[21, 201, 31, 301]);
    assert!(a == expected);
}

#[test]
fn gerc_matches_ger_on_reals() {
    let x: Vec<i64> = vec![1, -2];
    let y: Vec<i64> = vec![3, 4];
    let mut a = Mat::<i64>::new(2, 2).unwrap();
    let mut b = Mat::<i64>::new(2, 2).unwrap();
    ger(5, &x, &y, &mut a);
    gerc(5, &x, &y, &mut b);
    assert!(a == b);
    assert_eq!(a.get_cell(1, 0).unwrap(), -30);
}

#[test]
fn outer_empty_operand() {
    let x: Vec<i64> = vec![];
    let y: Vec<i64> = vec![1, 2];
    let a = outer_product(&x, Trans::T(&y)).unwrap();
    assert_eq!(a.rows(), 0);
    assert_eq!(a.cols(), 2);
}
