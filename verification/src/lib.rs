//! Dense linear algebra over capability traits: matrices and vectors expose
//! their dimensions and elements through the `Matrix` and `Vector` traits,
//! and the kernel routines (`gemv`, `ger`, `gerc`) together with the
//! dispatch layer (`multiply`, `outer_product`) are proved to compute the
//! textbook matrix-vector product and rank-1 outer products.

pub mod attribute;
pub mod error;
pub mod scalar;
pub mod vector;
pub mod matrix;
pub mod kernel;
pub mod ops;
