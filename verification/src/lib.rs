//! Batched, broadcast-aware matrix multiplication: shape inference, batch
//! geometry and the per-cell addressing that drives a packed matrix-multiply
//! kernel, together with the fusion of trailing pointwise operators.

pub mod datum;
pub mod dim;
pub mod error;
pub mod general;
pub mod eval;
pub mod geo;
pub mod index;
pub mod infer;
pub mod mat_mul;
pub mod post_op;
pub mod register;
pub mod shape;
pub mod simple_b;
pub mod unary;
