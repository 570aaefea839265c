//! Error values for shape-incompatible operands.
use vstd::prelude::*;

verus! {

/// Which dimension two operands disagreed on.
#[derive(Debug, Clone, Copy, PartialEq, Eq, Structural)]
pub enum DimensionKind {
    /// The degree N of the quotient ring T[x]/(x^N - 1).
    RingDegree,
    /// The number of polynomials in a vector.
    VectorLength,
    /// The number of rows of a matrix.
    MatrixRows,
    /// The number of columns of a matrix.
    MatrixCols,
}

/// The failure modes of the ring operations.
///
/// Every operation either returns a freshly built value or one of these
/// errors; no operation panics.
#[derive(Debug, Clone, Copy, PartialEq, Eq, Structural)]
pub enum RingError {
    /// Two operands had incompatible shapes: `expected` is the size on the
    /// left operand, `actual` the conflicting size on the right.
    DimensionMismatch { kind: DimensionKind, expected: usize, actual: usize },
    /// A polynomial's coefficient count diverged from its declared ring
    /// degree. A consistency check only: values built by this library
    /// always keep the two equal.
    MalformedPolynomial { ring_degree: usize, coeff_count: usize },
}

} // verus!
