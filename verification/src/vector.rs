//! Vectors of same-degree polynomials and column-major matrices of such
//! vectors, with elementwise addition, dot products and left-vector
//! multiplication.
use vstd::prelude::*;

use crate::algebra::{lemma_ring_sum_add, lemma_ring_sum_congruence, ring_sum};
use crate::error::{DimensionKind, RingError};
use crate::polynomial::{
    conv_coeff, degree_mismatch_err, lemma_conv_coeff_commutative, lemma_conv_coeff_distributive,
    lemma_poly_add_associative, lemma_poly_add_commutative, poly_add_spec, Polynomial,
};
use crate::traits::RingElement;

verus! {

/// The error reporting two unequal vector lengths.
pub open spec fn length_mismatch_err(expected: usize, actual: usize) -> RingError {
    RingError::DimensionMismatch { kind: DimensionKind::VectorLength, expected, actual }
}

/// The error reporting two unequal row counts, or a left vector whose
/// length differs from the matrix's row count.
pub open spec fn rows_mismatch_err(expected: usize, actual: usize) -> RingError {
    RingError::DimensionMismatch { kind: DimensionKind::MatrixRows, expected, actual }
}

/// The error reporting two unequal column counts.
pub open spec fn cols_mismatch_err(expected: usize, actual: usize) -> RingError {
    RingError::DimensionMismatch { kind: DimensionKind::MatrixCols, expected, actual }
}

/// The elementwise sum of two vectors of coefficient sequences.
pub open spec fn vec_add_spec<T: RingElement>(a: Seq<Seq<T>>, b: Seq<Seq<T>>) -> Seq<Seq<T>> {
    Seq::new(a.len(), |i: int| poly_add_spec(a[i], b[i]))
}

/// The terms of coefficient c of a dot product: term i is coefficient c
/// of the product of the i-th entry polynomials.
pub open spec fn dot_term<T: RingElement>(a: Seq<Seq<T>>, b: Seq<Seq<T>>, c: int) -> spec_fn(
    int,
) -> T {
    |i: int| conv_coeff(a[i], b[i], c)
}

/// Coefficient c of the dot product of two vectors.
pub open spec fn dot_coeff<T: RingElement>(a: Seq<Seq<T>>, b: Seq<Seq<T>>, c: int) -> T {
    ring_sum(dot_term(a, b, c), a.len())
}

/// The dot product of two vectors of coefficient sequences, as a single
/// coefficient sequence of length n.
pub open spec fn dot_spec<T: RingElement>(a: Seq<Seq<T>>, b: Seq<Seq<T>>, n: nat) -> Seq<T> {
    Seq::new(n, |c: int| dot_coeff(a, b, c))
}

/// The columnwise sum of two matrices of coefficient sequences.
pub open spec fn mat_add_spec<T: RingElement>(
    a: Seq<Seq<Seq<T>>>,
    b: Seq<Seq<Seq<T>>>,
) -> Seq<Seq<Seq<T>>> {
    Seq::new(a.len(), |i: int| vec_add_spec(a[i], b[i]))
}

/// A left vector times a matrix given by its columns: entry i is the dot
/// product of the vector with column i.
pub open spec fn mat_vec_mul_spec<T: RingElement>(
    v: Seq<Seq<T>>,
    cols: Seq<Seq<Seq<T>>>,
    n: nat,
) -> Seq<Seq<T>> {
    Seq::new(cols.len(), |i: int| dot_spec(v, cols[i], n))
}

/// A vector model: l coefficient sequences, each of length n.
pub open spec fn vec_model_wf<T: RingElement>(v: Seq<Seq<T>>, n: nat, l: nat) -> bool {
    v.len() == l && forall|i: int| 0 <= i < l ==> #[trigger] v[i].len() == n
}

/// A matrix model: c columns, each a vector model of r sequences of
/// length n.
pub open spec fn mat_model_wf<T: RingElement>(
    m: Seq<Seq<Seq<T>>>,
    n: nat,
    r: nat,
    c: nat,
) -> bool {
    m.len() == c && forall|i: int| 0 <= i < c ==> vec_model_wf(#[trigger] m[i], n, r)
}

/// An ordered sequence of polynomials that all share one ring degree.
#[derive(Debug, PartialEq, Eq)]
pub struct Vector<T: RingElement> {
    pub ring_degree: usize,
    pub length: usize,
    pub polys: Vec<Polynomial<T>>,
}

impl<T: RingElement> View for Vector<T> {
    type V = Seq<Seq<T>>;

    open spec fn view(&self) -> Seq<Seq<T>> {
        Seq::new(self.polys@.len(), |i: int| self.polys@[i]@)
    }
}

impl<T: RingElement> Vector<T> {
    /// The entry count matches the declared length, and every entry is a
    /// well-formed polynomial of the vector's ring degree.
    pub open spec fn wf(self) -> bool {
        &&& self.polys@.len() == self.length
        &&& forall|i: int|
            0 <= i < self.length ==> (#[trigger] self.polys@[i]).wf() && self.polys@[i].ring_degree
                == self.ring_degree
    }

    /// Returns the vector of `length` zero polynomials of the given ring
    /// degree.
    pub fn new(ring_degree: usize, length: usize) -> (r: Vector<T>)
        ensures
            r.wf(),
            r.ring_degree == ring_degree,
            r.length == length,
            forall|i: int, c: int|
                0 <= i < length && 0 <= c < ring_degree ==> r@[i][c] == T::spec_zero(),
    {
        let mut polys: Vec<Polynomial<T>> = Vec::new();
        let mut k: usize = 0;
        while k < length
            invariant
                k <= length,
                polys@.len() == k,
                forall|i: int|
                    0 <= i < k ==> (#[trigger] polys@[i]).wf() && polys@[i].ring_degree
                        == ring_degree,
                forall|i: int, c: int|
                    0 <= i < k && 0 <= c < ring_degree ==> polys@[i]@[c] == T::spec_zero(),
            decreases length - k,
        {
            polys.push(Polynomial::new(ring_degree));
            k = k + 1;
        }
        Vector { ring_degree, length, polys }
    }

    /// Adds two vectors of the same length elementwise.
    ///
    /// Fails with `DimensionMismatch` on the vector lengths when they
    /// differ, and on the ring degrees when the entries cannot be added.
    pub fn add(&self, other: &Vector<T>) -> (r: Result<Vector<T>, RingError>)
        requires
            self.wf(),
            other.wf(),
        ensures
            self.length != other.length ==> r == Err::<Vector<T>, RingError>(
                length_mismatch_err(self.length, other.length),
            ),
            self.length == other.length && self.ring_degree != other.ring_degree && self.length
                > 0 ==> r == Err::<Vector<T>, RingError>(
                degree_mismatch_err(self.ring_degree, other.ring_degree),
            ),
            self.length == other.length && (self.ring_degree == other.ring_degree || self.length
                == 0) ==> (r matches Ok(sum) && sum.wf() && sum.ring_degree == self.ring_degree
                && sum.length == self.length && sum@ == vec_add_spec(self@, other@)),
    {
        if self.length != other.length {
            return Err(
                RingError::DimensionMismatch {
                    kind: DimensionKind::VectorLength,
                    expected: self.length,
                    actual: other.length,
                },
            );
        }
        let mut polys: Vec<Polynomial<T>> = Vec::new();
        let mut i: usize = 0;
        while i < self.length
            invariant
                i <= self.length,
                self.wf(),
                other.wf(),
                self.length == other.length,
                i > 0 ==> self.ring_degree == other.ring_degree,
                polys@.len() == i,
                forall|k: int|
                    0 <= k < i ==> (#[trigger] polys@[k]).wf() && polys@[k].ring_degree
                        == self.ring_degree && polys@[k]@ == poly_add_spec(self@[k], other@[k]),
            decreases self.length - i,
        {
            match self.polys[i].add(&other.polys[i]) {
                Ok(p) => polys.push(p),
                Err(e) => {
                    return Err(e);
                },
            }
            i = i + 1;
        }
        let sum = Vector { ring_degree: self.ring_degree, length: self.length, polys };
        proof {
            assert(sum@ =~= vec_add_spec(self@, other@));
        }
        Ok(sum)
    }

    /// The dot product of two vectors of the same length: the sum over all
    /// indices of the products of the paired entry polynomials.
    ///
    /// Fails with `DimensionMismatch` on the vector lengths when they
    /// differ, and on the ring degrees when the entries cannot be
    /// multiplied.
    pub fn dot_product(&self, other: &Vector<T>) -> (r: Result<Polynomial<T>, RingError>)
        requires
            self.wf(),
            other.wf(),
        ensures
            self.length != other.length ==> r == Err::<Polynomial<T>, RingError>(
                length_mismatch_err(self.length, other.length),
            ),
            self.length == other.length && self.ring_degree != other.ring_degree && self.length
                > 0 ==> r == Err::<Polynomial<T>, RingError>(
                degree_mismatch_err(self.ring_degree, other.ring_degree),
            ),
            self.length == other.length && (self.ring_degree == other.ring_degree || self.length
                == 0) ==> (r matches Ok(p) && p.wf() && p.ring_degree == self.ring_degree && p@
                == dot_spec(self@, other@, self.ring_degree as nat)),
    {
        if self.length != other.length {
            return Err(
                RingError::DimensionMismatch {
                    kind: DimensionKind::VectorLength,
                    expected: self.length,
                    actual: other.length,
                },
            );
        }
        let mut acc: Polynomial<T> = Polynomial::new(self.ring_degree);
        let mut i: usize = 0;
        while i < self.length
            invariant
                i <= self.length,
                self.wf(),
                other.wf(),
                self.length == other.length,
                i > 0 ==> self.ring_degree == other.ring_degree,
                acc.wf(),
                acc.ring_degree == self.ring_degree,
                forall|c: int|
                    0 <= c < self.ring_degree ==> acc@[c] == ring_sum(
                        dot_term(self@, other@, c),
                        i as nat,
                    ),
            decreases self.length - i,
        {
            let prod = match self.polys[i].multiply(&other.polys[i]) {
                Ok(p) => p,
                Err(e) => {
                    return Err(e);
                },
            };
            let next = match acc.add(&prod) {
                Ok(p) => p,
                Err(e) => {
                    return Err(e);
                },
            };
            proof {
                assert forall|c: int| 0 <= c < self.ring_degree implies next@[c] == ring_sum(
                    dot_term(self@, other@, c),
                    (i + 1) as nat,
                ) by {
                    assert(prod@[c] == conv_coeff(self@[i as int], other@[i as int], c));
                    assert(dot_term(self@, other@, c)(i as int) == conv_coeff(
                        self@[i as int],
                        other@[i as int],
                        c,
                    ));
                    assert(ring_sum(dot_term(self@, other@, c), (i + 1) as nat) == ring_sum(
                        dot_term(self@, other@, c),
                        i as nat,
                    ).spec_add(dot_term(self@, other@, c)(i as int)));
                }
            }
            acc = next;
            i = i + 1;
        }
        proof {
            assert(acc@ =~= dot_spec(self@, other@, self.ring_degree as nat));
        }
        Ok(acc)
    }
}

/// A column-major matrix: an ordered sequence of column vectors that all
/// share one ring degree and one length (the row count).
#[derive(Debug, PartialEq, Eq)]
pub struct Matrix<T: RingElement> {
    pub ring_degree: usize,
    pub num_rows: usize,
    pub num_cols: usize,
    pub cols: Vec<Vector<T>>,
}

impl<T: RingElement> View for Matrix<T> {
    type V = Seq<Seq<Seq<T>>>;

    open spec fn view(&self) -> Seq<Seq<Seq<T>>> {
        Seq::new(self.cols@.len(), |i: int| self.cols@[i]@)
    }
}

impl<T: RingElement> Matrix<T> {
    /// The column count matches the declared one, and every column is a
    /// well-formed vector of the matrix's ring degree with one entry per
    /// row.
    pub open spec fn wf(self) -> bool {
        &&& self.cols@.len() == self.num_cols
        &&& forall|i: int|
            0 <= i < self.num_cols ==> (#[trigger] self.cols@[i]).wf()
                && self.cols@[i].ring_degree == self.ring_degree && self.cols@[i].length
                == self.num_rows
    }

    /// Adds two matrices of the same shape columnwise.
    ///
    /// Fails with `DimensionMismatch` naming the row counts, the column
    /// counts, or the ring degrees, whichever pair disagrees first.
    pub fn add(&self, other: &Matrix<T>) -> (r: Result<Matrix<T>, RingError>)
        requires
            self.wf(),
            other.wf(),
        ensures
            self.num_rows != other.num_rows ==> r == Err::<Matrix<T>, RingError>(
                rows_mismatch_err(self.num_rows, other.num_rows),
            ),
            self.num_rows == other.num_rows && self.num_cols != other.num_cols ==> r == Err::<
                Matrix<T>,
                RingError,
            >(cols_mismatch_err(self.num_cols, other.num_cols)),
            self.num_rows == other.num_rows && self.num_cols == other.num_cols
                && self.ring_degree != other.ring_degree && self.num_rows > 0 && self.num_cols
                > 0 ==> r == Err::<Matrix<T>, RingError>(
                degree_mismatch_err(self.ring_degree, other.ring_degree),
            ),
            self.num_rows == other.num_rows && self.num_cols == other.num_cols
                && (self.ring_degree == other.ring_degree || self.num_rows == 0 || self.num_cols
                == 0) ==> (r matches Ok(sum) && sum.wf() && sum.ring_degree == self.ring_degree
                && sum.num_rows == self.num_rows && sum.num_cols == self.num_cols && sum@
                == mat_add_spec(self@, other@)),
    {
        if self.num_rows != other.num_rows {
            return Err(
                RingError::DimensionMismatch {
                    kind: DimensionKind::MatrixRows,
                    expected: self.num_rows,
                    actual: other.num_rows,
                },
            );
        }
        if self.num_cols != other.num_cols {
            return Err(
                RingError::DimensionMismatch {
                    kind: DimensionKind::MatrixCols,
                    expected: self.num_cols,
                    actual: other.num_cols,
                },
            );
        }
        let mut cols: Vec<Vector<T>> = Vec::new();
        let mut i: usize = 0;
        while i < self.num_cols
            invariant
                i <= self.num_cols,
                self.wf(),
                other.wf(),
                self.num_rows == other.num_rows,
                self.num_cols == other.num_cols,
                i > 0 && self.num_rows > 0 ==> self.ring_degree == other.ring_degree,
                cols@.len() == i,
                forall|k: int|
                    0 <= k < i ==> (#[trigger] cols@[k]).wf() && cols@[k].ring_degree
                        == self.ring_degree && cols@[k].length == self.num_rows && cols@[k]@
                        == vec_add_spec(self@[k], other@[k]),
            decreases self.num_cols - i,
        {
            match self.cols[i].add(&other.cols[i]) {
                Ok(v) => cols.push(v),
                Err(e) => {
                    return Err(e);
                },
            }
            i = i + 1;
        }
        let sum = Matrix {
            ring_degree: self.ring_degree,
            num_rows: self.num_rows,
            num_cols: self.num_cols,
            cols,
        };
        proof {
            assert(sum@ =~= mat_add_spec(self@, other@));
        }
        Ok(sum)
    }

    /// Multiplies the matrix by a row vector on the left: entry i of the
    /// result is the dot product of the vector with column i.
    ///
    /// Fails with `DimensionMismatch` on the row count when the vector's
    /// length differs from it, and on the ring degrees when the entries
    /// cannot be multiplied.
    pub fn multiply_by_left_vector(&self, other: &Vector<T>) -> (r: Result<Vector<T>, RingError>)
        requires
            self.wf(),
            other.wf(),
        ensures
            self.num_rows != other.length ==> r == Err::<Vector<T>, RingError>(
                rows_mismatch_err(self.num_rows, other.length),
            ),
            self.num_rows == other.length && other.ring_degree != self.ring_degree
                && self.num_rows > 0 && self.num_cols > 0 ==> r == Err::<Vector<T>, RingError>(
                degree_mismatch_err(other.ring_degree, self.ring_degree),
            ),
            self.num_rows == other.length && (other.ring_degree == self.ring_degree
                || self.num_rows == 0 || self.num_cols == 0) ==> (r matches Ok(prod)
                && prod.ring_degree == self.ring_degree && prod.length == self.num_cols
                && prod.polys@.len() == self.num_cols && (forall|k: int|
                0 <= k < self.num_cols ==> (#[trigger] prod.polys@[k]).wf()
                    && prod.polys@[k].ring_degree == other.ring_degree) && prod@
                == mat_vec_mul_spec(other@, self@, other.ring_degree as nat) && (
            other.ring_degree == self.ring_degree ==> prod.wf())),
    {
        if self.num_rows != other.length {
            return Err(
                RingError::DimensionMismatch {
                    kind: DimensionKind::MatrixRows,
                    expected: self.num_rows,
                    actual: other.length,
                },
            );
        }
        let mut polys: Vec<Polynomial<T>> = Vec::new();
        let mut i: usize = 0;
        while i < self.num_cols
            invariant
                i <= self.num_cols,
                self.wf(),
                other.wf(),
                self.num_rows == other.length,
                i > 0 && self.num_rows > 0 ==> other.ring_degree == self.ring_degree,
                polys@.len() == i,
                forall|k: int|
                    0 <= k < i ==> (#[trigger] polys@[k]).wf() && polys@[k].ring_degree
                        == other.ring_degree && polys@[k]@ == dot_spec(
                        other@,
                        self@[k],
                        other.ring_degree as nat,
                    ),
            decreases self.num_cols - i,
        {
            match other.dot_product(&self.cols[i]) {
                Ok(p) => polys.push(p),
                Err(e) => {
                    return Err(e);
                },
            }
            i = i + 1;
        }
        let prod = Vector { ring_degree: self.ring_degree, length: self.num_cols, polys };
        proof {
            assert(prod@ =~= mat_vec_mul_spec(other@, self@, other.ring_degree as nat));
        }
        Ok(prod)
    }
}

/// Vector addition is commutative.
pub proof fn lemma_vec_add_commutative<T: RingElement>(a: Seq<Seq<T>>, b: Seq<Seq<T>>, n: nat, l: nat)
    requires
        vec_model_wf(a, n, l),
        vec_model_wf(b, n, l),
    ensures
        vec_add_spec(a, b) == vec_add_spec(b, a),
{
    assert forall|i: int| 0 <= i < l implies vec_add_spec(a, b)[i] == vec_add_spec(b, a)[i] by {
        lemma_poly_add_commutative(a[i], b[i]);
    }
    assert(vec_add_spec(a, b) =~= vec_add_spec(b, a));
}

/// Vector addition is associative.
pub proof fn lemma_vec_add_associative<T: RingElement>(
    a: Seq<Seq<T>>,
    b: Seq<Seq<T>>,
    c: Seq<Seq<T>>,
    n: nat,
    l: nat,
)
    requires
        vec_model_wf(a, n, l),
        vec_model_wf(b, n, l),
        vec_model_wf(c, n, l),
    ensures
        vec_add_spec(vec_add_spec(a, b), c) == vec_add_spec(a, vec_add_spec(b, c)),
{
    assert forall|i: int| 0 <= i < l implies vec_add_spec(vec_add_spec(a, b), c)[i]
        == vec_add_spec(a, vec_add_spec(b, c))[i] by {
        lemma_poly_add_associative(a[i], b[i], c[i]);
    }
    assert(vec_add_spec(vec_add_spec(a, b), c) =~= vec_add_spec(a, vec_add_spec(b, c)));
}

/// The dot product is commutative.
pub proof fn lemma_dot_product_commutative<T: RingElement>(
    a: Seq<Seq<T>>,
    b: Seq<Seq<T>>,
    n: nat,
    l: nat,
)
    requires
        vec_model_wf(a, n, l),
        vec_model_wf(b, n, l),
    ensures
        dot_spec(a, b, n) == dot_spec(b, a, n),
{
    assert forall|c: int| 0 <= c < n implies dot_coeff(a, b, c) == dot_coeff(b, a, c) by {
        assert forall|i: int| 0 <= i < l implies #[trigger] dot_term(a, b, c)(i) == dot_term(
            b,
            a,
            c,
        )(i) by {
            lemma_conv_coeff_commutative(a[i], b[i], c);
        }
        lemma_ring_sum_congruence(dot_term(a, b, c), dot_term(b, a, c), l);
    }
    assert(dot_spec(a, b, n) =~= dot_spec(b, a, n));
}

/// Matrix addition is commutative.
pub proof fn lemma_mat_add_commutative<T: RingElement>(
    m1: Seq<Seq<Seq<T>>>,
    m2: Seq<Seq<Seq<T>>>,
    n: nat,
    r: nat,
    c: nat,
)
    requires
        mat_model_wf(m1, n, r, c),
        mat_model_wf(m2, n, r, c),
    ensures
        mat_add_spec(m1, m2) == mat_add_spec(m2, m1),
{
    assert forall|i: int| 0 <= i < c implies mat_add_spec(m1, m2)[i] == mat_add_spec(m2, m1)[i] by {
        lemma_vec_add_commutative(m1[i], m2[i], n, r);
    }
    assert(mat_add_spec(m1, m2) =~= mat_add_spec(m2, m1));
}

/// Matrix addition is associative.
pub proof fn lemma_mat_add_associative<T: RingElement>(
    m1: Seq<Seq<Seq<T>>>,
    m2: Seq<Seq<Seq<T>>>,
    m3: Seq<Seq<Seq<T>>>,
    n: nat,
    r: nat,
    c: nat,
)
    requires
        mat_model_wf(m1, n, r, c),
        mat_model_wf(m2, n, r, c),
        mat_model_wf(m3, n, r, c),
    ensures
        mat_add_spec(mat_add_spec(m1, m2), m3) == mat_add_spec(m1, mat_add_spec(m2, m3)),
{
    assert forall|i: int| 0 <= i < c implies mat_add_spec(mat_add_spec(m1, m2), m3)[i]
        == mat_add_spec(m1, mat_add_spec(m2, m3))[i] by {
        lemma_vec_add_associative(m1[i], m2[i], m3[i], n, r);
    }
    assert(mat_add_spec(mat_add_spec(m1, m2), m3) =~= mat_add_spec(m1, mat_add_spec(m2, m3)));
}

/// The dot product distributes over vector addition on the right.
pub proof fn lemma_dot_product_distributive<T: RingElement>(
    v: Seq<Seq<T>>,
    w1: Seq<Seq<T>>,
    w2: Seq<Seq<T>>,
    n: nat,
    l: nat,
)
    requires
        vec_model_wf(v, n, l),
        vec_model_wf(w1, n, l),
        vec_model_wf(w2, n, l),
    ensures
        dot_spec(v, vec_add_spec(w1, w2), n) == poly_add_spec(
            dot_spec(v, w1, n),
            dot_spec(v, w2, n),
        ),
{
    assert forall|c: int| 0 <= c < n implies dot_coeff(v, vec_add_spec(w1, w2), c) == dot_coeff(
        v,
        w1,
        c,
    ).spec_add(dot_coeff(v, w2, c)) by {
        let f = dot_term(v, w1, c);
        let g = dot_term(v, w2, c);
        let h = dot_term(v, vec_add_spec(w1, w2), c);
        assert forall|j: int| 0 <= j < l implies #[trigger] h(j) == f(j).spec_add(g(j)) by {
            lemma_conv_coeff_distributive(v[j], w1[j], w2[j], c);
        }
        lemma_ring_sum_add(f, g, h, l);
    }
    assert(dot_spec(v, vec_add_spec(w1, w2), n) =~= poly_add_spec(
        dot_spec(v, w1, n),
        dot_spec(v, w2, n),
    ));
}

/// Left-vector multiplication distributes over matrix addition: the
/// product of a vector with a sum of matrices is the elementwise sum of
/// the products with each matrix.
pub proof fn lemma_matrix_vector_distributive<T: RingElement>(
    v: Seq<Seq<T>>,
    m1: Seq<Seq<Seq<T>>>,
    m2: Seq<Seq<Seq<T>>>,
    n: nat,
    r: nat,
    c: nat,
)
    requires
        vec_model_wf(v, n, r),
        mat_model_wf(m1, n, r, c),
        mat_model_wf(m2, n, r, c),
    ensures
        mat_vec_mul_spec(v, mat_add_spec(m1, m2), n) == vec_add_spec(
            mat_vec_mul_spec(v, m1, n),
            mat_vec_mul_spec(v, m2, n),
        ),
{
    assert forall|i: int| 0 <= i < c implies mat_vec_mul_spec(v, mat_add_spec(m1, m2), n)[i]
        == vec_add_spec(mat_vec_mul_spec(v, m1, n), mat_vec_mul_spec(v, m2, n))[i] by {
        lemma_dot_product_distributive(v, m1[i], m2[i], n, r);
    }
    assert(mat_vec_mul_spec(v, mat_add_spec(m1, m2), n) =~= vec_add_spec(
        mat_vec_mul_spec(v, m1, n),
        mat_vec_mul_spec(v, m2, n),
    ));
}

} // verus!
