//! Dense matrices in one row-major buffer, with their arithmetic proved.
//!
//! A [`Matrix`] holds its cells row by row. Its shape invariant (both
//! dimensions positive, one cell per position) is established by every
//! constructor and kept by every method. Constructors answer bad dimensions
//! with an error; the arithmetic asks, as a precondition, for operands of
//! fitting shapes and for results that the element type can represent.
//!
//! Shape, transposition and cellwise transformation work for any element
//! type. Arithmetic works for the element types that implement [`Scalar`]:
//! the machine integers, each of whose values stands for a mathematical
//! integer. The contracts of the arithmetic are stated over [`Grid`], the
//! mathematical model of a matrix, and the module [`laws`] proves the
//! algebra that relates them.

pub mod grid;
pub mod integers;
pub mod laws;
pub mod literal;
pub mod matrix;
pub mod ops;
pub mod scalar;
pub mod text;

pub use grid::Grid;
pub use literal::LiteralError;
pub use matrix::Matrix;
pub use scalar::Scalar;
