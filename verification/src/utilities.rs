//! Random sample generation for the modular-integer rings, for callers
//! that exercise the ring operations on bulk data.
use vstd::prelude::*;

use crate::polynomial::Polynomial;
use crate::ring::{ModInteger32, ModInteger64};
use crate::vector::{Matrix, Vector};

verus! {

/// Relies on rand::random: draws one value of T from the thread-local
/// generator. Nothing is promised of the result.
pub assume_specification<T>[ rand::random::<T> ]() -> (r: T)
    where
        rand::distributions::Standard: rand::distributions::Distribution<T>,
;

/// Returns a polynomial of the given ring degree whose coefficients are
/// drawn from the thread-local random generator.
pub fn generate_random_modint32_polynomial(size: usize) -> (r: Polynomial<ModInteger32>)
    ensures
        r.wf(),
        r.ring_degree == size,
{
    let mut coeffs: Vec<ModInteger32> = Vec::new();
    let mut k: usize = 0;
    while k < size
        invariant
            k <= size,
            coeffs@.len() == k,
        decreases size - k,
    {
        coeffs.push(ModInteger32 { value: rand::random::<u32>() });
        k = k + 1;
    }
    Polynomial { ring_degree: size, coeffs }
}

/// Returns a polynomial of the given ring degree whose coefficients are
/// drawn from the thread-local random generator.
pub fn generate_random_modint64_polynomial(size: usize) -> (r: Polynomial<ModInteger64>)
    ensures
        r.wf(),
        r.ring_degree == size,
{
    let mut coeffs: Vec<ModInteger64> = Vec::new();
    let mut k: usize = 0;
    while k < size
        invariant
            k <= size,
            coeffs@.len() == k,
        decreases size - k,
    {
        coeffs.push(ModInteger64 { value: rand::random::<u64>() });
        k = k + 1;
    }
    Polynomial { ring_degree: size, coeffs }
}

/// Returns a vector of `size` random polynomials of the given ring degree.
pub fn generate_random_modint32_polynomial_vector(size: usize, ring_degree: usize) -> (r: Vector<
    ModInteger32,
>)
    ensures
        r.wf(),
        r.ring_degree == ring_degree,
        r.length == size,
{
    let mut polys: Vec<Polynomial<ModInteger32>> = Vec::new();
    let mut k: usize = 0;
    while k < size
        invariant
            k <= size,
            polys@.len() == k,
            forall|i: int|
                0 <= i < k ==> (#[trigger] polys@[i]).wf() && polys@[i].ring_degree == ring_degree,
        decreases size - k,
    {
        polys.push(generate_random_modint32_polynomial(ring_degree));
        k = k + 1;
    }
    Vector { ring_degree, length: size, polys }
}

/// Returns a vector of `size` random polynomials of the given ring degree.
pub fn generate_random_modint64_polynomial_vector(size: usize, ring_degree: usize) -> (r: Vector<
    ModInteger64,
>)
    ensures
        r.wf(),
        r.ring_degree == ring_degree,
        r.length == size,
{
    let mut polys: Vec<Polynomial<ModInteger64>> = Vec::new();
    let mut k: usize = 0;
    while k < size
        invariant
            k <= size,
            polys@.len() == k,
            forall|i: int|
                0 <= i < k ==> (#[trigger] polys@[i]).wf() && polys@[i].ring_degree == ring_degree,
        decreases size - k,
    {
        polys.push(generate_random_modint64_polynomial(ring_degree));
        k = k + 1;
    }
    Vector { ring_degree, length: size, polys }
}

/// Returns a matrix of the given shape whose columns are random vectors of
/// the given ring degree.
pub fn generate_random_modint32_polynomial_matrix(
    num_rows: usize,
    num_cols: usize,
    ring_degree: usize,
) -> (r: Matrix<ModInteger32>)
    ensures
        r.wf(),
        r.ring_degree == ring_degree,
        r.num_rows == num_rows,
        r.num_cols == num_cols,
{
    let mut cols: Vec<Vector<ModInteger32>> = Vec::new();
    let mut k: usize = 0;
    while k < num_cols
        invariant
            k <= num_cols,
            cols@.len() == k,
            forall|i: int|
                0 <= i < k ==> (#[trigger] cols@[i]).wf() && cols@[i].ring_degree == ring_degree
                    && cols@[i].length == num_rows,
        decreases num_cols - k,
    {
        cols.push(generate_random_modint32_polynomial_vector(num_rows, ring_degree));
        k = k + 1;
    }
    Matrix { ring_degree, num_rows, num_cols, cols }
}

/// Returns a matrix of the given shape whose columns are random vectors of
/// the given ring degree.
pub fn generate_random_modint64_polynomial_matrix(
    num_rows: usize,
    num_cols: usize,
    ring_degree: usize,
) -> (r: Matrix<ModInteger64>)
    ensures
        r.wf(),
        r.ring_degree == ring_degree,
        r.num_rows == num_rows,
        r.num_cols == num_cols,
{
    let mut cols: Vec<Vector<ModInteger64>> = Vec::new();
    let mut k: usize = 0;
    while k < num_cols
        invariant
            k <= num_cols,
            cols@.len() == k,
            forall|i: int|
                0 <= i < k ==> (#[trigger] cols@[i]).wf() && cols@[i].ring_degree == ring_degree
                    && cols@[i].length == num_rows,
        decreases num_cols - k,
    {
        cols.push(generate_random_modint64_polynomial_vector(num_rows, ring_degree));
        k = k + 1;
    }
    Matrix { ring_degree, num_rows, num_cols, cols }
}

} // verus!
