//! Finite sums of ring elements, and the rearrangement lemmas that the
//! cyclic-convolution laws are built on.
use vstd::prelude::*;

use crate::traits::{
    lemma_add_pairs_rearrange, lemma_add_swap_last, lemma_mul_distributes_right,
    lemma_zero_add_identity, RingElement,
};

verus! {

/// The sum f(0) + f(1) + ... + f(n-1), folded from the left onto zero.
pub open spec fn ring_sum<T: RingElement>(f: spec_fn(int) -> T, n: nat) -> T
    decreases n,
{
    if n == 0 {
        T::spec_zero()
    } else {
        ring_sum(f, (n - 1) as nat).spec_add(f(n - 1))
    }
}

/// A sum depends only on the values of its term function below the bound.
pub proof fn lemma_ring_sum_congruence<T: RingElement>(
    f: spec_fn(int) -> T,
    g: spec_fn(int) -> T,
    n: nat,
)
    requires
        forall|j: int| 0 <= j < n ==> #[trigger] f(j) == g(j),
    ensures
        ring_sum(f, n) == ring_sum(g, n),
    decreases n,
{
    if n > 0 {
        lemma_ring_sum_congruence(f, g, (n - 1) as nat);
    }
}

/// A sum of zeros is zero.
pub proof fn lemma_ring_sum_zero<T: RingElement>(f: spec_fn(int) -> T, n: nat)
    requires
        forall|j: int| 0 <= j < n ==> #[trigger] f(j) == T::spec_zero(),
    ensures
        ring_sum(f, n) == T::spec_zero(),
    decreases n,
{
    if n > 0 {
        lemma_ring_sum_zero(f, (n - 1) as nat);
        T::add_zero_identity(T::spec_zero());
    }
}

/// Sums add termwise: the sum of f plus the sum of g is the sum of their
/// termwise sum h.
pub proof fn lemma_ring_sum_add<T: RingElement>(
    f: spec_fn(int) -> T,
    g: spec_fn(int) -> T,
    h: spec_fn(int) -> T,
    n: nat,
)
    requires
        forall|j: int| 0 <= j < n ==> #[trigger] h(j) == f(j).spec_add(g(j)),
    ensures
        ring_sum(f, n).spec_add(ring_sum(g, n)) == ring_sum(h, n),
    decreases n,
{
    if n == 0 {
        T::add_zero_identity(T::spec_zero());
    } else {
        let m = (n - 1) as nat;
        lemma_ring_sum_add(f, g, h, m);
        lemma_add_pairs_rearrange(ring_sum(f, m), f(n - 1), ring_sum(g, m), g(n - 1));
    }
}

/// A common right factor moves out of a sum: the sum of g, whose terms are
/// the terms of f times y, is the sum of f times y.
pub proof fn lemma_ring_sum_mul_right<T: RingElement>(
    f: spec_fn(int) -> T,
    g: spec_fn(int) -> T,
    y: T,
    n: nat,
)
    requires
        forall|j: int| 0 <= j < n ==> #[trigger] g(j) == f(j).spec_mul(y),
    ensures
        ring_sum(f, n).spec_mul(y) == ring_sum(g, n),
    decreases n,
{
    if n == 0 {
        T::mul_commutes(T::spec_zero(), y);
        T::mul_zero_annihilates(y);
    } else {
        let m = (n - 1) as nat;
        lemma_ring_sum_mul_right(f, g, y, m);
        lemma_mul_distributes_right(ring_sum(f, m), f(n - 1), y);
    }
}

/// A common left factor moves out of a sum.
pub proof fn lemma_ring_sum_mul_left<T: RingElement>(
    f: spec_fn(int) -> T,
    g: spec_fn(int) -> T,
    y: T,
    n: nat,
)
    requires
        forall|j: int| 0 <= j < n ==> #[trigger] g(j) == y.spec_mul(f(j)),
    ensures
        y.spec_mul(ring_sum(f, n)) == ring_sum(g, n),
    decreases n,
{
    if n == 0 {
        T::mul_zero_annihilates(y);
    } else {
        let m = (n - 1) as nat;
        lemma_ring_sum_mul_left(f, g, y, m);
        T::mul_distributes(y, ring_sum(f, m), f(n - 1));
    }
}

/// Removing the term at index p: the sum of f over n terms equals the sum
/// over n - 1 terms of g, which skips index p, plus f(p).
pub proof fn lemma_ring_sum_remove<T: RingElement>(
    f: spec_fn(int) -> T,
    g: spec_fn(int) -> T,
    p: int,
    n: nat,
)
    requires
        0 <= p < n,
        forall|j: int| 0 <= j < n - 1 ==> #[trigger] g(j) == (if j < p { f(j) } else { f(j + 1) }),
    ensures
        ring_sum(f, n) == ring_sum(g, (n - 1) as nat).spec_add(f(p)),
    decreases n,
{
    let m = (n - 1) as nat;
    if p == n - 1 {
        lemma_ring_sum_congruence(g, f, m);
    } else {
        lemma_ring_sum_remove(f, g, p, m);
        assert(g(m - 1) == f(n - 1));
        assert(ring_sum(g, m) == ring_sum(g, (m - 1) as nat).spec_add(g(m - 1)));
        lemma_add_swap_last(ring_sum(g, (m - 1) as nat), f(p), f(n - 1));
    }
}

/// A sum is invariant under a bijective reindexing of its terms: if sigma
/// and tau are inverse permutations of [0, n) and g follows f through
/// sigma, both sums agree.
pub proof fn lemma_ring_sum_reindex<T: RingElement>(
    f: spec_fn(int) -> T,
    g: spec_fn(int) -> T,
    sigma: spec_fn(int) -> int,
    tau: spec_fn(int) -> int,
    n: nat,
)
    requires
        forall|j: int| 0 <= j < n ==> 0 <= #[trigger] sigma(j) < n,
        forall|j: int| 0 <= j < n ==> tau(#[trigger] sigma(j)) == j,
        forall|k: int| 0 <= k < n ==> 0 <= #[trigger] tau(k) < n,
        forall|k: int| 0 <= k < n ==> sigma(#[trigger] tau(k)) == k,
        forall|j: int| 0 <= j < n ==> g(j) == f(#[trigger] sigma(j)),
    ensures
        ring_sum(g, n) == ring_sum(f, n),
    decreases n,
{
    if n > 0 {
        let m = (n - 1) as nat;
        let p = sigma(n - 1);
        let f1 = |j: int| if j < p { f(j) } else { f(j + 1) };
        let sigma1 = |j: int| if sigma(j) < p { sigma(j) } else { sigma(j) - 1 };
        let tau1 = |k: int| if k < p { tau(k) } else { tau(k + 1) };
        assert(tau(p) == n - 1);
        assert forall|j: int| 0 <= j < m implies 0 <= #[trigger] sigma1(j) < m by {
            assert(sigma(j) != p) by {
                assert(tau(sigma(j)) == j);
            }
        }
        assert forall|j: int| 0 <= j < m implies tau1(#[trigger] sigma1(j)) == j by {
            assert(tau(sigma(j)) == j);
            if sigma(j) < p {
                assert(tau1(sigma1(j)) == tau(sigma(j)));
            } else {
                assert(sigma(j) != p);
                assert(sigma1(j) == sigma(j) - 1 >= p);
                assert(tau1(sigma1(j)) == tau(sigma(j)));
            }
        }
        assert forall|k: int| 0 <= k < m implies 0 <= #[trigger] tau1(k) < m by {
            if k < p {
                assert(sigma(tau(k)) == k);
                assert(tau(k) != n - 1);
            } else {
                assert(sigma(tau(k + 1)) == k + 1);
                assert(tau(k + 1) != n - 1);
            }
        }
        assert forall|k: int| 0 <= k < m implies sigma1(#[trigger] tau1(k)) == k by {
            if k < p {
                assert(sigma(tau(k)) == k);
            } else {
                assert(sigma(tau(k + 1)) == k + 1);
            }
        }
        assert forall|j: int| 0 <= j < m implies g(j) == f1(#[trigger] sigma1(j)) by {
            assert(sigma(j) != p) by {
                assert(tau(sigma(j)) == j);
            }
            assert(g(j) == f(sigma(j)));
        }
        lemma_ring_sum_reindex(f1, g, sigma1, tau1, m);
        lemma_ring_sum_remove(f, f1, p, n);
        assert(g(n - 1) == f(p));
    }
}

/// Finite double sums swap their summation order. The term grid is given
/// curried both ways: h by rows, ht by columns; hs and hts are the row and
/// column sums.
pub proof fn lemma_ring_sum_swap<T: RingElement>(
    h: spec_fn(int) -> spec_fn(int) -> T,
    ht: spec_fn(int) -> spec_fn(int) -> T,
    hs: spec_fn(int) -> T,
    hts: spec_fn(int) -> T,
    m: nat,
    n: nat,
)
    requires
        forall|j: int, k: int| 0 <= j < m && 0 <= k < n ==> #[trigger] ht(k)(j) == h(j)(k),
        forall|j: int| 0 <= j < m ==> hs(j) == ring_sum(#[trigger] h(j), n),
        forall|k: int| 0 <= k < n ==> hts(k) == ring_sum(#[trigger] ht(k), m),
    ensures
        ring_sum(hs, m) == ring_sum(hts, n),
    decreases m,
{
    if m == 0 {
        assert forall|k: int| 0 <= k < n implies #[trigger] hts(k) == T::spec_zero() by {
            assert(hts(k) == ring_sum(ht(k), 0));
        }
        lemma_ring_sum_zero(hts, n);
    } else {
        let mm = (m - 1) as nat;
        let cs = |k: int| ring_sum(ht(k), mm);
        lemma_ring_sum_swap(h, ht, hs, cs, mm, n);
        assert forall|k: int| 0 <= k < n implies #[trigger] hts(k) == cs(k).spec_add(h(m - 1)(k)) by {
            assert(ring_sum(ht(k), m) == ring_sum(ht(k), mm).spec_add(ht(k)(m - 1)));
            assert(ht(k)(m - 1) == h(m - 1)(k));
        }
        lemma_ring_sum_add(cs, h(m - 1), hts, n);
        assert(ring_sum(hs, m) == ring_sum(hs, mm).spec_add(hs(m - 1)));
    }
}

/// A sum whose terms vanish everywhere but at index p collapses to f(p).
pub proof fn lemma_ring_sum_single<T: RingElement>(f: spec_fn(int) -> T, p: int, n: nat)
    requires
        0 <= p < n,
        forall|j: int| 0 <= j < n && j != p ==> #[trigger] f(j) == T::spec_zero(),
    ensures
        ring_sum(f, n) == f(p),
    decreases n,
{
    let m = (n - 1) as nat;
    if p == n - 1 {
        lemma_ring_sum_zero(f, m);
        lemma_zero_add_identity(f(p));
    } else {
        lemma_ring_sum_single(f, p, m);
        T::add_zero_identity(f(p));
    }
}

} // verus!
