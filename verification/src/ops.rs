//! Arithmetic on matrices.

pub mod arithmetic;
pub mod linear;
pub mod scalar_left;
