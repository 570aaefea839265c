//! Arithmetic in the polynomial quotient ring T[x]/(x^N - 1).
//!
//! Coefficients come from any type implementing the [`traits::RingElement`]
//! capability; polynomials compose into vectors and column-major matrices.
pub mod algebra;
pub mod error;
pub mod polynomial;
pub mod ring;
pub mod traits;
pub mod utilities;
pub mod vector;
