use rblas::error::Error;
use rblas::matrix::{Mat, Matrix};

fn filled(rows: usize, cols: usize, vals: &[i64]) -> Mat<i64> {
    assert_eq!(rows * cols, vals.len());
    let mut a = Mat::<i64>::new(rows, cols).unwrap();
    for i in 0..rows {
        for j in 0..cols {
            a.set_cell(i, j, vals[i * cols + j]).unwrap();
        }
    }
    a
}

#[test]
fn mat_test() {
    let mut a = Mat::<i64>::new(3, 3).unwrap();
    for i in 0..3 {
        for j in 0..3 {
            a.set_cell(i, j, (i * 3 + j) as i64).unwrap();
        }
    }
    let b = a.clone();
    assert!(a == b);
    a.set_cell(0, 0, 10).unwrap();
    assert!(a != b);
    let row0 = vec![10i64, 1, 2];
    assert_eq!(row0.as_slice(), a.row(0).unwrap());
    for i in 0..3 {
        for j in 0..3 {
            assert_eq!(b.get_cell(i, j).unwrap(), (i * 3 + j) as i64);
        }
    }
}

#[test]
fn new_is_zero_filled() {
    let a = Mat::<i64>::new(2, 3).unwrap();
    for i in 0..2 {
        for j in 0..3 {
            assert_eq!(a.get_cell(i, j).unwrap(), 0);
        }
    }
    assert_eq!(a.rows(), 2);
    assert_eq!(a.cols(), 3);
}

#[test]
fn fill_sets_every_cell() {
    let a = Mat::<i64>::fill(7, 3, 2).unwrap();
    for i in 0..3 {
        for j in 0..2 {
            assert_eq!(a.get_cell(i, j).unwrap(), 7);
        }
    }
}

#[test]
fn new_overflow_fails() {
    let r = Mat::<i64>::new(usize::MAX, 2);
    assert_eq!(r.err().unwrap(), Error::SizeOverflow);
}

#[test]
fn row_out_of_bounds_fails() {
    let a = filled(2, 2, &[1, 2, 3, 4]);
    assert_eq!(a.row(2).err().unwrap(), Error::IndexOutOfBounds);
    assert_eq!(a.row(usize::MAX).err().unwrap(), Error::IndexOutOfBounds);
    assert!(a.row(1).is_ok());
}

#[test]
fn cell_out_of_bounds_fails() {
    let mut a = filled(2, 3, &[1, 2, 3, 4, 5, 6]);
    assert_eq!(a.get_cell(2, 0).err().unwrap(), Error::IndexOutOfBounds);
    assert_eq!(a.get_cell(0, 3).err().unwrap(), Error::IndexOutOfBounds);
    assert_eq!(a.set_cell(2, 0, 9).err().unwrap(), Error::IndexOutOfBounds);
    assert_eq!(a.set_cell(0, 3, 9).err().unwrap(), Error::IndexOutOfBounds);
    // A failed write leaves the matrix unchanged.
    for i in 0..2 {
        for j in 0..3 {
            assert_eq!(a.get_cell(i, j).unwrap(), (i * 3 + j + 1) as i64);
        }
    }
}

#[test]
fn roundtrip_non_square() {
    // Write every cell of a non-square matrix, then read it back row by
    // row: the row stride is the column count, so nothing overlaps.
    let rows = 4;
    let cols = 7;
    let mut a = Mat::<i64>::new(rows, cols).unwrap();
    for i in 0..rows {
        for j in 0..cols {
            a.set_cell(i, j, (100 * i + j) as i64).unwrap();
        }
    }
    for i in 0..rows {
        let row = a.row(i).unwrap();
        assert_eq!(row.len(), cols);
        for j in 0..cols {
            assert_eq!(row[j], (100 * i + j) as i64);
            assert_eq!(a.get_cell(i, j).unwrap(), (100 * i + j) as i64);
        }
    }
}

#[test]
fn clone_does_not_alias() {
    let a = filled(2, 2, &[1, 2, 3, 4]);
    let mut c = a.clone();
    c.set_cell(1, 1, -9).unwrap();
    assert_eq!(a.get_cell(1, 1).unwrap(), 4);
    assert_eq!(c.get_cell(1, 1).unwrap(), -9);
    assert_eq!(c.get_cell(0, 0).unwrap(), 1);
}

#[test]
fn eq_compares_dims_and_contents() {
    let a = filled(2, 3, &[1, 2, 3, 4, 5, 6]);
    let b = filled(2, 3, &[1, 2, 3, 4, 5, 6]);
    let c = filled(3, 2, &[1, 2, 3, 4, 5, 6]);
    let d = filled(2, 3, &[1, 2, 3, 4, 5, 7]);
    assert!(a == b);
    assert!(a != c);
    assert!(a != d);
}

#[test]
fn slices_expose_row_major_buffer() {
    let mut a = filled(2, 2, &[1, 2, 3, 4]);
    assert_eq!(a.as_slice(), &[1, 2, 3, 4]);
    {
        let s = a.as_mut_slice();
        s[2] = 30;
    }
    assert_eq!(a.get_cell(1, 0).unwrap(), 30);
    assert_eq!(a.row(1).unwrap(), &[30, 4]);
}

#[test]
fn empty_matrix() {
    let a = Mat::<i64>::new(0, 5).unwrap();
    assert_eq!(a.rows(), 0);
    assert_eq!(a.cols(), 5);
    assert_eq!(a.row(0).err().unwrap(), Error::IndexOutOfBounds);
    let b = Mat::<i64>::new(3, 0).unwrap();
    assert_eq!(b.row(2).unwrap().len(), 0);
}

#[test]
fn metadata_defaults() {
    let a = Mat::<i64>::new(2, 3).unwrap();
    assert_eq!(a.lead_dim(), 2);
    assert!(matches!(a.order(), rblas::attribute::Order::RowMajor));
    assert!(matches!(a.transpose(), rblas::attribute::Transpose::NoTrans));
}

#[test]
fn row_mut_writes_in_place() {
    let mut a = filled(2, 3, &[1, 2, 3, 4, 5, 6]);
    {
        let r = a.row_mut(1);
        r[0] = 40;
        r[2] = 60;
    }
    assert_eq!(a.row(1).unwrap(), &[40, 5, 60]);
    assert_eq!(a.row(0).unwrap(), &[1, 2, 3]);
}
