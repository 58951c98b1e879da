//! Fixed-dimension linear-algebra primitives: vectors and matrices whose
//! sizes are set at construction and never change, with element access,
//! addition, subtraction, element-wise product, dot product, a
//! dimension-swapping mirror (transpose), and matrix multiplication.
//!
//! A matrix is stored column-major: a `Rows x Cols` matrix owns `Cols`
//! column vectors of `Rows` scalars each, and a single flattened index
//! addresses one scalar inside that storage.

pub mod laws;
pub mod matrix;
pub mod vector;
