//! A fixed-point number backed by a 128-bit signed integer with 28 fraction
//! bits, offering the operations that CORDIC-style shift-and-add algorithms
//! build on.

mod fixed_ops;
pub mod laws;
pub mod num;

pub use num::{Num, NumError};
