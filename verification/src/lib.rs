//! Freivalds' check of a claimed matrix product over the base field of
//! BLS12-381: `A * B == C` is tested by comparing `A * (B * x)` with `C * x`
//! for a random probe vector `x`, at quadratic instead of cubic cost.

pub mod algebra;
pub mod counting;
pub mod field;
pub mod matrix;
pub mod protocol;
pub mod soundness;

pub use crate::matrix::{mat_product, Matrix, Vector};
pub use crate::protocol::{check_matrix_dimensions, Freivald, VerifyError};
