//! The machine integers as matrix elements. Zero and one come from
//! `num_traits`; the arithmetic is that of the language, which is exact
//! wherever the result is representable.

pub mod signed;
pub mod unsigned;
