//! Polynomials in the quotient ring T[x]/(x^N - 1), with ring addition,
//! cyclic-convolution multiplication, and multiplication by the generator.
use vstd::prelude::*;

use crate::algebra::{
    lemma_ring_sum_add, lemma_ring_sum_congruence, lemma_ring_sum_mul_left,
    lemma_ring_sum_mul_right, lemma_ring_sum_reindex, lemma_ring_sum_single,
    lemma_ring_sum_swap, ring_sum,
};
use crate::error::{DimensionKind, RingError};
use crate::traits::{RingElement, Zero};
use vstd::arithmetic::div_mod::{
    lemma_add_mod_noop_right, lemma_mod_add_multiples_vanish, lemma_mod_bound, lemma_small_mod,
    lemma_sub_mod_noop_right,
};

verus! {

/// The exponent i - j wrapped back into [0, n): in the quotient ring a
/// product term x^j * x^(i-j mod n) lands on exponent i because x^n = 1.
pub open spec fn wrap_index(n: int, i: int, j: int) -> int {
    if j <= i {
        i - j
    } else {
        n + i - j
    }
}

/// For indices in range, the wrapped exponent is the residue of i - j.
pub proof fn lemma_wrap_index_is_mod(n: int, i: int, j: int)
    requires
        0 <= i < n,
        0 <= j < n,
    ensures
        wrap_index(n, i, j) == (i - j) % n,
{
    if j <= i {
        lemma_small_mod((i - j) as nat, n as nat);
    } else {
        lemma_mod_add_multiples_vanish(i - j, n);
        lemma_small_mod((n + i - j) as nat, n as nat);
    }
}

/// Reducing the left operand of a difference mod n leaves the residue.
proof fn lemma_mod_sub_left(x: int, y: int, n: int)
    requires
        0 < n,
    ensures
        ((x % n) - y) % n == (x - y) % n,
{
    lemma_add_mod_noop_right(-y, x, n);
}

/// The terms of coefficient i of the cyclic convolution of a and b:
/// term j is a[j] * b[(i - j) mod n].
pub open spec fn conv_term<T: RingElement>(a: Seq<T>, b: Seq<T>, i: int) -> spec_fn(int) -> T {
    |j: int| a[j].spec_mul(b[wrap_index(a.len() as int, i, j)])
}

/// Coefficient i of the cyclic convolution of a and b.
pub open spec fn conv_coeff<T: RingElement>(a: Seq<T>, b: Seq<T>, i: int) -> T {
    ring_sum(conv_term(a, b, i), a.len())
}

/// The coefficientwise sum of two coefficient sequences.
pub open spec fn poly_add_spec<T: RingElement>(a: Seq<T>, b: Seq<T>) -> Seq<T> {
    Seq::new(a.len(), |i: int| a[i].spec_add(b[i]))
}

/// The cyclic convolution of two coefficient sequences.
pub open spec fn poly_mul_spec<T: RingElement>(a: Seq<T>, b: Seq<T>) -> Seq<T> {
    Seq::new(a.len(), |i: int| conv_coeff(a, b, i))
}

/// The coefficient sequence rotated one step up: multiplying by x shifts
/// every exponent by one and wraps the top coefficient around.
pub open spec fn poly_rotate_spec<T: RingElement>(a: Seq<T>) -> Seq<T> {
    Seq::new(a.len(), |i: int| if i == 0 { a[a.len() - 1] } else { a[i - 1] })
}

/// The generator polynomial x of the ring: coefficient one at exponent
/// 1 mod n, zero elsewhere. (In the degenerate ring with n = 1, x = 1.)
pub open spec fn generator_spec<T: RingElement>(n: nat) -> Seq<T> {
    Seq::new(n, |i: int| if i == 1int % (n as int) { T::spec_one() } else { T::spec_zero() })
}

/// The error reporting that a polynomial's coefficient count diverged from
/// its ring degree.
pub open spec fn malformed_err<T: RingElement>(p: Polynomial<T>) -> RingError {
    RingError::MalformedPolynomial {
        ring_degree: p.ring_degree,
        coeff_count: p.coeffs@.len() as usize,
    }
}

/// The error reporting two unequal ring degrees.
pub open spec fn degree_mismatch_err(expected: usize, actual: usize) -> RingError {
    RingError::DimensionMismatch { kind: DimensionKind::RingDegree, expected, actual }
}

/// A polynomial in T[x]/(x^N - 1): the coefficient at index i belongs to
/// the exponent x^i, and the coefficient count equals the ring degree N.
#[derive(Debug, PartialEq, Eq)]
pub struct Polynomial<T: RingElement> {
    pub ring_degree: usize,
    pub coeffs: Vec<T>,
}

impl<T: RingElement> View for Polynomial<T> {
    type V = Seq<T>;

    open spec fn view(&self) -> Seq<T> {
        self.coeffs@
    }
}

impl<T: RingElement> Polynomial<T> {
    /// The coefficient count matches the declared ring degree.
    pub open spec fn wf(self) -> bool {
        self.coeffs@.len() == self.ring_degree
    }

    /// Returns the zero polynomial of the given ring degree.
    pub fn new(ring_degree: usize) -> (r: Polynomial<T>)
        ensures
            r.wf(),
            r.ring_degree == ring_degree,
            forall|i: int| 0 <= i < ring_degree ==> r@[i] == T::spec_zero(),
    {
        let mut coeffs: Vec<T> = Vec::new();
        let mut k: usize = 0;
        while k < ring_degree
            invariant
                k <= ring_degree,
                coeffs@.len() == k,
                forall|i: int| 0 <= i < k ==> coeffs@[i] == T::spec_zero(),
            decreases ring_degree - k,
        {
            coeffs.push(T::zero());
            k = k + 1;
        }
        Polynomial { ring_degree, coeffs }
    }

    /// Checks that the coefficient count matches the ring degree, and says
    /// which counts disagreed if not.
    pub fn check_coeff_length(&self) -> (r: Result<(), RingError>)
        ensures
            self.wf() ==> r == Ok::<(), RingError>(()),
            !self.wf() ==> r == Err::<(), RingError>(malformed_err(*self)),
    {
        if self.ring_degree != self.coeffs.len() {
            Err(
                RingError::MalformedPolynomial {
                    ring_degree: self.ring_degree,
                    coeff_count: self.coeffs.len(),
                },
            )
        } else {
            Ok(())
        }
    }

    /// Adds two polynomials of the same ring degree coefficientwise.
    ///
    /// Fails with `DimensionMismatch` exactly when the ring degrees differ,
    /// and with `MalformedPolynomial` when an operand's coefficient count
    /// diverges from its declared degree.
    pub fn add(&self, other: &Polynomial<T>) -> (r: Result<Polynomial<T>, RingError>)
        ensures
            !self.wf() ==> r == Err::<Polynomial<T>, RingError>(malformed_err(*self)),
            self.wf() && self.ring_degree != other.ring_degree ==> r == Err::<
                Polynomial<T>,
                RingError,
            >(degree_mismatch_err(self.ring_degree, other.ring_degree)),
            self.wf() && self.ring_degree == other.ring_degree && !other.wf() ==> r == Err::<
                Polynomial<T>,
                RingError,
            >(malformed_err(*other)),
            self.wf() && other.wf() && self.ring_degree == other.ring_degree ==> (r matches Ok(sum)
                && sum.wf() && sum.ring_degree == self.ring_degree && sum@ == poly_add_spec(
                self@,
                other@,
            )),
    {
        if self.coeffs.len() != self.ring_degree {
            return Err(
                RingError::MalformedPolynomial {
                    ring_degree: self.ring_degree,
                    coeff_count: self.coeffs.len(),
                },
            );
        }
        if self.ring_degree != other.ring_degree {
            return Err(
                RingError::DimensionMismatch {
                    kind: DimensionKind::RingDegree,
                    expected: self.ring_degree,
                    actual: other.ring_degree,
                },
            );
        }
        if other.coeffs.len() != other.ring_degree {
            return Err(
                RingError::MalformedPolynomial {
                    ring_degree: other.ring_degree,
                    coeff_count: other.coeffs.len(),
                },
            );
        }
        let n = self.ring_degree;
        let mut coeffs: Vec<T> = Vec::new();
        let mut i: usize = 0;
        while i < n
            invariant
                i <= n,
                self.wf(),
                other.wf(),
                n == self.ring_degree,
                n == other.ring_degree,
                coeffs@.len() == i,
                forall|k: int| 0 <= k < i ==> coeffs@[k] == self@[k].spec_add(other@[k]),
            decreases n - i,
        {
            coeffs.push(self.coeffs[i].add(other.coeffs[i]));
            i = i + 1;
        }
        proof {
            assert(coeffs@ =~= poly_add_spec(self@, other@));
        }
        Ok(Polynomial { ring_degree: n, coeffs })
    }

    /// Multiplies two polynomials of the same ring degree by direct cyclic
    /// convolution: terms that would land on exponent n + i fold back onto
    /// exponent i because x^n = 1.
    ///
    /// Fails with `DimensionMismatch` exactly when the ring degrees differ,
    /// and with `MalformedPolynomial` when an operand's coefficient count
    /// diverges from its declared degree.
    pub fn multiply(&self, other: &Polynomial<T>) -> (r: Result<Polynomial<T>, RingError>)
        ensures
            !self.wf() ==> r == Err::<Polynomial<T>, RingError>(malformed_err(*self)),
            self.wf() && self.ring_degree != other.ring_degree ==> r == Err::<
                Polynomial<T>,
                RingError,
            >(degree_mismatch_err(self.ring_degree, other.ring_degree)),
            self.wf() && self.ring_degree == other.ring_degree && !other.wf() ==> r == Err::<
                Polynomial<T>,
                RingError,
            >(malformed_err(*other)),
            self.wf() && other.wf() && self.ring_degree == other.ring_degree ==> (r matches Ok(prod)
                && prod.wf() && prod.ring_degree == self.ring_degree && prod@ == poly_mul_spec(
                self@,
                other@,
            )),
    {
        if self.coeffs.len() != self.ring_degree {
            return Err(
                RingError::MalformedPolynomial {
                    ring_degree: self.ring_degree,
                    coeff_count: self.coeffs.len(),
                },
            );
        }
        if self.ring_degree != other.ring_degree {
            return Err(
                RingError::DimensionMismatch {
                    kind: DimensionKind::RingDegree,
                    expected: self.ring_degree,
                    actual: other.ring_degree,
                },
            );
        }
        if other.coeffs.len() != other.ring_degree {
            return Err(
                RingError::MalformedPolynomial {
                    ring_degree: other.ring_degree,
                    coeff_count: other.coeffs.len(),
                },
            );
        }
        let n = self.ring_degree;
        let mut coeffs: Vec<T> = Vec::new();
        let mut i: usize = 0;
        while i < n
            invariant
                i <= n,
                self.wf(),
                other.wf(),
                n == self.ring_degree,
                n == other.ring_degree,
                coeffs@.len() == i,
                forall|k: int| 0 <= k < i ==> coeffs@[k] == conv_coeff(self@, other@, k),
            decreases n - i,
        {
            let mut acc: T = T::zero();
            let mut j: usize = 0;
            // The x^i terms proper: a[j] * b[i - j] for j up to i.
            while j <= i
                invariant
                    j <= i + 1,
                    i < n,
                    self.wf(),
                    other.wf(),
                    n == self.ring_degree,
                    n == other.ring_degree,
                    acc == ring_sum(conv_term(self@, other@, i as int), j as nat),
                decreases i + 1 - j,
            {
                proof {
                    assert(conv_term(self@, other@, i as int)(j as int) == self@[j as int]
                        .spec_mul(other@[i - j]));
                }
                acc = acc.add(self.coeffs[j].mul(other.coeffs[i - j]));
                j = j + 1;
            }
            // The x^(n + i) terms, folded back: a[j] * b[n + i - j].
            while j < n
                invariant
                    i < j <= n,
                    i < n,
                    self.wf(),
                    other.wf(),
                    n == self.ring_degree,
                    n == other.ring_degree,
                    acc == ring_sum(conv_term(self@, other@, i as int), j as nat),
                decreases n - j,
            {
                proof {
                    assert(conv_term(self@, other@, i as int)(j as int) == self@[j as int]
                        .spec_mul(other@[n + i - j]));
                }
                acc = acc.add(self.coeffs[j].mul(other.coeffs[n - j + i]));
                j = j + 1;
            }
            coeffs.push(acc);
            i = i + 1;
        }
        proof {
            assert(coeffs@ =~= poly_mul_spec(self@, other@));
        }
        Ok(Polynomial { ring_degree: n, coeffs })
    }

    /// Multiplies the polynomial by the ring generator x: every coefficient
    /// moves up one exponent and the top coefficient wraps around to
    /// exponent zero.
    ///
    /// Fails with `MalformedPolynomial` exactly when the coefficient count
    /// diverges from the declared ring degree.
    pub fn multiply_by_x(&self) -> (r: Result<Polynomial<T>, RingError>)
        ensures
            !self.wf() ==> r == Err::<Polynomial<T>, RingError>(malformed_err(*self)),
            self.wf() ==> (r matches Ok(prod) && prod.wf() && prod.ring_degree
                == self.ring_degree && prod@ == poly_rotate_spec(self@)),
    {
        if self.coeffs.len() != self.ring_degree {
            return Err(
                RingError::MalformedPolynomial {
                    ring_degree: self.ring_degree,
                    coeff_count: self.coeffs.len(),
                },
            );
        }
        let n = self.ring_degree;
        let mut coeffs: Vec<T> = Vec::new();
        if n > 0 {
            coeffs.push(self.coeffs[n - 1]);
            let mut i: usize = 1;
            while i < n
                invariant
                    1 <= i <= n,
                    self.wf(),
                    n == self.ring_degree,
                    coeffs@.len() == i,
                    coeffs@[0] == self@[n - 1],
                    forall|k: int| 1 <= k < i ==> coeffs@[k] == self@[k - 1],
                decreases n - i,
            {
                coeffs.push(self.coeffs[i - 1]);
                i = i + 1;
            }
        }
        proof {
            assert(coeffs@ =~= poly_rotate_spec(self@));
        }
        Ok(Polynomial { ring_degree: n, coeffs })
    }
}

/// Polynomial addition is commutative.
pub proof fn lemma_poly_add_commutative<T: RingElement>(a: Seq<T>, b: Seq<T>)
    requires
        a.len() == b.len(),
    ensures
        poly_add_spec(a, b) == poly_add_spec(b, a),
{
    assert forall|i: int| 0 <= i < a.len() implies poly_add_spec(a, b)[i] == poly_add_spec(b, a)[i] by {
        T::add_commutes(a[i], b[i]);
    }
    assert(poly_add_spec(a, b) =~= poly_add_spec(b, a));
}

/// Polynomial addition is associative.
pub proof fn lemma_poly_add_associative<T: RingElement>(a: Seq<T>, b: Seq<T>, c: Seq<T>)
    requires
        a.len() == b.len(),
        b.len() == c.len(),
    ensures
        poly_add_spec(poly_add_spec(a, b), c) == poly_add_spec(a, poly_add_spec(b, c)),
{
    assert forall|i: int| 0 <= i < a.len() implies poly_add_spec(poly_add_spec(a, b), c)[i]
        == poly_add_spec(a, poly_add_spec(b, c))[i] by {
        T::add_associates(a[i], b[i], c[i]);
    }
    assert(poly_add_spec(poly_add_spec(a, b), c) =~= poly_add_spec(a, poly_add_spec(b, c)));
}

/// One coefficient of the commutative law: the reindexing j to
/// (i - j) mod n is an involution pairing each term of one convolution
/// with a term of the other.
pub proof fn lemma_conv_coeff_commutative<T: RingElement>(a: Seq<T>, b: Seq<T>, i: int)
    requires
        a.len() == b.len(),
        0 <= i < a.len(),
    ensures
        conv_coeff(a, b, i) == conv_coeff(b, a, i),
{
    let n = a.len() as int;
    let sigma = |j: int| wrap_index(n, i, j);
    let f = conv_term(b, a, i);
    let g = conv_term(a, b, i);
    assert forall|j: int| 0 <= j < n implies 0 <= #[trigger] sigma(j) < n && sigma(sigma(j))
        == j by {}
    assert forall|j: int| 0 <= j < n implies #[trigger] g(j) == f(sigma(j)) by {
        T::mul_commutes(a[j], b[sigma(j)]);
    }
    lemma_ring_sum_reindex(f, g, sigma, sigma, n as nat);
}

/// Polynomial multiplication is commutative.
pub proof fn lemma_poly_mul_commutative<T: RingElement>(a: Seq<T>, b: Seq<T>)
    requires
        a.len() == b.len(),
    ensures
        poly_mul_spec(a, b) == poly_mul_spec(b, a),
{
    let n = a.len() as int;
    assert forall|i: int| 0 <= i < n implies conv_coeff(a, b, i) == conv_coeff(b, a, i) by {
        lemma_conv_coeff_commutative(a, b, i);
    }
    assert(poly_mul_spec(a, b) =~= poly_mul_spec(b, a));
}

/// One coefficient of the distributive law: each convolution term splits
/// by the ring's own distributivity, and the sums add termwise.
pub proof fn lemma_conv_coeff_distributive<T: RingElement>(a: Seq<T>, b: Seq<T>, c: Seq<T>, i: int)
    requires
        a.len() == b.len(),
        b.len() == c.len(),
        0 <= i < a.len(),
    ensures
        conv_coeff(a, poly_add_spec(b, c), i) == conv_coeff(a, b, i).spec_add(
            conv_coeff(a, c, i),
        ),
{
    let n = a.len() as int;
    let f = conv_term(a, b, i);
    let g = conv_term(a, c, i);
    let h = conv_term(a, poly_add_spec(b, c), i);
    assert forall|j: int| 0 <= j < n implies #[trigger] h(j) == f(j).spec_add(g(j)) by {
        T::mul_distributes(a[j], b[wrap_index(n, i, j)], c[wrap_index(n, i, j)]);
    }
    lemma_ring_sum_add(f, g, h, n as nat);
}

/// Polynomial multiplication distributes over polynomial addition.
pub proof fn lemma_poly_mul_distributive<T: RingElement>(a: Seq<T>, b: Seq<T>, c: Seq<T>)
    requires
        a.len() == b.len(),
        b.len() == c.len(),
    ensures
        poly_mul_spec(a, poly_add_spec(b, c)) == poly_add_spec(
            poly_mul_spec(a, b),
            poly_mul_spec(a, c),
        ),
{
    let n = a.len() as int;
    assert forall|i: int| 0 <= i < n implies conv_coeff(a, poly_add_spec(b, c), i) == conv_coeff(
        a,
        b,
        i,
    ).spec_add(conv_coeff(a, c, i)) by {
        lemma_conv_coeff_distributive(a, b, c, i);
    }
    assert(poly_mul_spec(a, poly_add_spec(b, c)) =~= poly_add_spec(
        poly_mul_spec(a, b),
        poly_mul_spec(a, c),
    ));
}

/// Polynomial multiplication is associative: both groupings of coefficient
/// i collect the same monomials a[k] b[m] c[(i - k - m) mod n].
pub proof fn lemma_poly_mul_associative<T: RingElement>(a: Seq<T>, b: Seq<T>, c: Seq<T>)
    requires
        a.len() == b.len(),
        b.len() == c.len(),
    ensures
        poly_mul_spec(poly_mul_spec(a, b), c) == poly_mul_spec(a, poly_mul_spec(b, c)),
{
    let n = a.len() as int;
    assert forall|i: int| 0 <= i < n implies conv_coeff(poly_mul_spec(a, b), c, i) == conv_coeff(
        a,
        poly_mul_spec(b, c),
        i,
    ) by {
        lemma_conv_coeff_associative(a, b, c, i);
    }
    assert(poly_mul_spec(poly_mul_spec(a, b), c) =~= poly_mul_spec(a, poly_mul_spec(b, c)));
}

/// One coefficient of the associativity law: expand both groupings into a
/// double sum over the monomial grid and swap the summation order.
proof fn lemma_conv_coeff_associative<T: RingElement>(a: Seq<T>, b: Seq<T>, c: Seq<T>, i: int)
    requires
        a.len() == b.len(),
        b.len() == c.len(),
        0 <= i < a.len(),
    ensures
        conv_coeff(poly_mul_spec(a, b), c, i) == conv_coeff(a, poly_mul_spec(b, c), i),
{
    let n = a.len() as int;
    let nn = a.len();
    // The monomial grid, by rows j (grouped (a*b)*c) and by columns k.
    let h = |j: int| |k: int| a[k].spec_mul(b[wrap_index(n, j, k)]).spec_mul(
        c[wrap_index(n, i, j)],
    );
    let ht = |k: int| |j: int| a[k].spec_mul(b[wrap_index(n, j, k)]).spec_mul(
        c[wrap_index(n, i, j)],
    );
    let lhs = conv_term(poly_mul_spec(a, b), c, i);
    let rhs = conv_term(a, poly_mul_spec(b, c), i);
    // Row j of the grid sums to term j of the left-hand convolution.
    assert forall|j: int| 0 <= j < n implies #[trigger] lhs(j) == ring_sum(h(j), nn) by {
        assert forall|k: int| 0 <= k < n implies #[trigger] h(j)(k) == conv_term(a, b, j)(k)
            .spec_mul(c[wrap_index(n, i, j)]) by {}
        lemma_ring_sum_mul_right(conv_term(a, b, j), h(j), c[wrap_index(n, i, j)], nn);
        assert(poly_mul_spec(a, b)[j] == conv_coeff(a, b, j));
    }
    // Column k of the grid sums to term k of the right-hand convolution.
    assert forall|k: int| 0 <= k < n implies #[trigger] rhs(k) == ring_sum(ht(k), nn) by {
        lemma_conv_column_collects(a, b, c, i, k, ht(k));
    }
    lemma_ring_sum_swap(h, ht, lhs, rhs, nn, nn);
}

/// Column k of the associativity grid: reindexing by m = (j - k) mod n and
/// factoring a[k] out to the left turns the column sum into
/// a[k] * (b * c)[(i - k) mod n].
proof fn lemma_conv_column_collects<T: RingElement>(
    a: Seq<T>,
    b: Seq<T>,
    c: Seq<T>,
    i: int,
    k: int,
    col: spec_fn(int) -> T,
)
    requires
        a.len() == b.len(),
        b.len() == c.len(),
        0 <= i < a.len(),
        0 <= k < a.len(),
        forall|j: int| 0 <= j < a.len() ==> #[trigger] col(j) == a[k].spec_mul(
            b[wrap_index(a.len() as int, j, k)],
        ).spec_mul(c[wrap_index(a.len() as int, i, j)]),
    ensures
        conv_term(a, poly_mul_spec(b, c), i)(k) == ring_sum(col, a.len()),
{
    let n = a.len() as int;
    let nn = a.len();
    let sigma = |j: int| (j - k) % n;
    let tau = |m: int| (k + m) % n;
    let mid = |m: int| a[k].spec_mul(b[m]).spec_mul(c[(i - k - m) % n]);
    let mid2 = |m: int| a[k].spec_mul(b[m].spec_mul(c[(i - k - m) % n]));
    let bck = |m: int| b[m].spec_mul(c[(i - k - m) % n]);
    // sigma and tau are inverse permutations of [0, n).
    assert forall|j: int| 0 <= j < n implies 0 <= #[trigger] sigma(j) < n && tau(sigma(j))
        == j by {
        lemma_mod_bound(j - k, n);
        lemma_add_mod_noop_right(k, j - k, n);
        lemma_small_mod(j as nat, n as nat);
    }
    assert forall|m: int| 0 <= m < n implies 0 <= #[trigger] tau(m) < n && sigma(tau(m))
        == m by {
        lemma_mod_bound(k + m, n);
        lemma_mod_sub_left(k + m, k, n);
        lemma_small_mod(m as nat, n as nat);
    }
    // The column follows mid through sigma.
    assert forall|j: int| 0 <= j < n implies col(j) == mid(#[trigger] sigma(j)) by {
        lemma_wrap_index_is_mod(n, j, k);
        lemma_wrap_index_is_mod(n, i, j);
        lemma_mod_bound(j - k, n);
        assert((i - k - ((j - k) % n)) % n == (i - j) % n) by {
            lemma_sub_mod_noop_right(i - k, j - k, n);
        }
    }
    lemma_ring_sum_reindex(mid, col, sigma, tau, nn);
    // Reassociate each monomial and move a[k] out to the left.
    assert forall|m: int| 0 <= m < n implies #[trigger] mid(m) == mid2(m) by {
        T::mul_associates(a[k], b[m], c[(i - k - m) % n]);
    }
    lemma_ring_sum_congruence(mid, mid2, nn);
    assert forall|m: int| 0 <= m < n implies #[trigger] mid2(m) == a[k].spec_mul(bck(m)) by {}
    lemma_ring_sum_mul_left(bck, mid2, a[k], nn);
    // The factored sum is the (i - k) mod n coefficient of b * c.
    let i2 = wrap_index(n, i, k);
    lemma_wrap_index_is_mod(n, i, k);
    lemma_mod_bound(i - k, n);
    assert forall|m: int| 0 <= m < n implies conv_term(b, c, i2)(m) == #[trigger] bck(m) by {
        lemma_wrap_index_is_mod(n, i2, m);
        lemma_mod_sub_left(i - k, m, n);
    }
    lemma_ring_sum_congruence(conv_term(b, c, i2), bck, nn);
    assert(poly_mul_spec(b, c)[i2] == conv_coeff(b, c, i2));
}

/// Multiplying by the generator polynomial x agrees exactly with rotating
/// the coefficients one step up.
pub proof fn lemma_multiply_by_x_consistent<T: RingElement>(a: Seq<T>)
    requires
        a.len() >= 1,
    ensures
        poly_mul_spec(a, generator_spec(a.len())) == poly_rotate_spec(a),
{
    let n = a.len() as int;
    let gen = generator_spec::<T>(a.len());
    assert forall|i: int| 0 <= i < n implies conv_coeff(a, gen, i) == poly_rotate_spec(a)[i] by {
        let f = conv_term(a, gen, i);
        let p = (i - 1) % n;
        lemma_mod_bound(i - 1, n);
        // Term p is a[p] * one: its wrapped exponent is 1 mod n.
        assert(wrap_index(n, i, p) == 1int % n) by {
            lemma_wrap_index_is_mod(n, i, p);
            lemma_sub_mod_noop_right(i, i - 1, n);
            lemma_small_mod(1nat % (n as nat), n as nat);
            lemma_mod_bound(1, n);
        }
        T::mul_one_identity(a[p]);
        // Every other term is a[j] * zero.
        assert forall|j: int| 0 <= j < n && j != p implies #[trigger] f(j) == T::spec_zero() by {
            lemma_wrap_index_is_mod(n, i, j);
            if (i - j) % n == 1int % n {
                lemma_sub_mod_noop_right(i, i - j, n);
                lemma_sub_mod_noop_right(i, 1, n);
                lemma_small_mod(j as nat, n as nat);
                assert(j == (i - 1) % n);
            }
            lemma_mod_bound(1, n);
            T::mul_zero_annihilates(a[j]);
        }
        lemma_ring_sum_single(f, p, a.len());
        // The rotated coefficient is the same a[(i - 1) mod n].
        if i == 0 {
            lemma_mod_add_multiples_vanish(-1, n);
            lemma_small_mod((n - 1) as nat, n as nat);
        } else {
            lemma_small_mod((i - 1) as nat, n as nat);
        }
    }
    assert(poly_mul_spec(a, gen) =~= poly_rotate_spec(a));
}

} // verus!
