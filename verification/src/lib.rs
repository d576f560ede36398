//! A dense, row-major matrix over an abstract scalar, with the transforms and
//! edge lists of a wireframe renderer built on top of it.
//!
//! Every executable function carries a contract over [`grid::Grid`], the
//! mathematical model of a matrix, and the algebraic facts that relate the
//! operations to one another are proved in [`laws`]. That the buffer of a
//! matrix fits its dimensions is an invariant of the type, so no function
//! asks its caller for it.
//!
//! The element type is any [`Scalar`]. Integers with wrapping arithmetic are
//! one; floating-point numbers become one outside of verified code.

pub mod curve;
pub mod decimal;
pub mod display;
pub mod grid;
pub mod laws;
pub mod matrix;
pub mod product;
pub mod scalar;
pub mod transform;

pub use matrix::Matrix;
pub use scalar::Scalar;
