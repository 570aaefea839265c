//! The capability a coefficient type must offer to live in the ring.
use vstd::prelude::*;

verus! {

/// A type with an additive identity.
pub trait Zero: Sized {
    /// The additive identity at the specification level.
    spec fn spec_zero() -> Self;

    /// Returns the additive identity.
    fn zero() -> (r: Self)
        ensures
            r == Self::spec_zero(),
    ;
}

/// A type with a multiplicative identity.
pub trait One: Sized {
    /// The multiplicative identity at the specification level.
    spec fn spec_one() -> Self;

    /// Returns the multiplicative identity.
    fn one() -> (r: Self)
        ensures
            r == Self::spec_one(),
    ;
}

/// The operations and laws of a commutative ring.
///
/// Implementors supply specification-level addition, subtraction,
/// multiplication and negation, executable operations that agree with them,
/// and proofs of the ring laws. Every polynomial, vector and matrix result
/// in this crate is stated and proved over these specification operations.
pub trait RingElement: Zero + One + Copy + Sized {
    /// Specification-level addition.
    spec fn spec_add(self, other: Self) -> Self;

    /// Specification-level subtraction.
    spec fn spec_sub(self, other: Self) -> Self;

    /// Specification-level multiplication.
    spec fn spec_mul(self, other: Self) -> Self;

    /// Specification-level additive inverse.
    spec fn spec_neg(self) -> Self;

    /// Executable addition, agreeing with `spec_add`.
    fn add(self, other: Self) -> (r: Self)
        ensures
            r == self.spec_add(other),
    ;

    /// Executable subtraction, agreeing with `spec_sub`.
    fn sub(self, other: Self) -> (r: Self)
        ensures
            r == self.spec_sub(other),
    ;

    /// Executable multiplication, agreeing with `spec_mul`.
    fn mul(self, other: Self) -> (r: Self)
        ensures
            r == self.spec_mul(other),
    ;

    /// Addition is commutative.
    proof fn add_commutes(a: Self, b: Self)
        ensures
            a.spec_add(b) == b.spec_add(a),
    ;

    /// Addition is associative.
    proof fn add_associates(a: Self, b: Self, c: Self)
        ensures
            a.spec_add(b).spec_add(c) == a.spec_add(b.spec_add(c)),
    ;

    /// Zero is the additive identity.
    proof fn add_zero_identity(a: Self)
        ensures
            a.spec_add(Self::spec_zero()) == a,
    ;

    /// Multiplication is commutative.
    proof fn mul_commutes(a: Self, b: Self)
        ensures
            a.spec_mul(b) == b.spec_mul(a),
    ;

    /// Multiplication is associative.
    proof fn mul_associates(a: Self, b: Self, c: Self)
        ensures
            a.spec_mul(b).spec_mul(c) == a.spec_mul(b.spec_mul(c)),
    ;

    /// One is the multiplicative identity.
    proof fn mul_one_identity(a: Self)
        ensures
            a.spec_mul(Self::spec_one()) == a,
    ;

    /// Zero annihilates under multiplication.
    proof fn mul_zero_annihilates(a: Self)
        ensures
            a.spec_mul(Self::spec_zero()) == Self::spec_zero(),
    ;

    /// Multiplication distributes over addition.
    proof fn mul_distributes(a: Self, b: Self, c: Self)
        ensures
            a.spec_mul(b.spec_add(c)) == a.spec_mul(b).spec_add(a.spec_mul(c)),
    ;

    /// Subtraction adds the additive inverse.
    proof fn sub_adds_neg(a: Self, b: Self)
        ensures
            a.spec_sub(b) == a.spec_add(b.spec_neg()),
    ;

    /// Negation distributes over addition.
    proof fn neg_distributes(a: Self, b: Self)
        ensures
            a.spec_add(b).spec_neg() == a.spec_neg().spec_add(b.spec_neg()),
    ;

    /// Negation commutes with multiplication on the left factor.
    proof fn neg_mul_left(a: Self, b: Self)
        ensures
            a.spec_neg().spec_mul(b) == a.spec_mul(b).spec_neg(),
    ;

    /// Negation produces the additive inverse.
    proof fn add_neg_inverse(a: Self)
        ensures
            a.spec_add(a.spec_neg()) == Self::spec_zero(),
    ;
}

/// Zero is also a left identity of addition.
pub proof fn lemma_zero_add_identity<T: RingElement>(a: T)
    ensures
        T::spec_zero().spec_add(a) == a,
{
    T::add_commutes(T::spec_zero(), a);
    T::add_zero_identity(a);
}

/// Negating zero gives zero.
pub proof fn lemma_neg_zero<T: RingElement>()
    ensures
        T::spec_zero().spec_neg() == T::spec_zero(),
{
    T::add_neg_inverse(T::spec_zero());
    lemma_zero_add_identity(T::spec_zero().spec_neg());
}

/// Two two-term sums regroup into sums of their first and second summands.
pub proof fn lemma_add_pairs_rearrange<T: RingElement>(a: T, b: T, c: T, d: T)
    ensures
        a.spec_add(b).spec_add(c.spec_add(d)) == a.spec_add(c).spec_add(b.spec_add(d)),
{
    T::add_associates(a, b, c.spec_add(d));
    T::add_associates(b, c, d);
    T::add_commutes(b, c);
    T::add_associates(c, b, d);
    T::add_associates(a, c, b.spec_add(d));
}

/// As [`lemma_add_pairs_rearrange`], with the trailing pair flipped.
pub proof fn lemma_add_pairs_cycle<T: RingElement>(a: T, b: T, c: T, d: T)
    ensures
        a.spec_add(b).spec_add(c.spec_add(d)) == a.spec_add(c).spec_add(d.spec_add(b)),
{
    lemma_add_pairs_rearrange(a, b, c, d);
    T::add_commutes(b, d);
}

/// The last summand of a three-term sum exchanges with the second.
pub proof fn lemma_add_swap_last<T: RingElement>(a: T, b: T, c: T)
    ensures
        a.spec_add(b).spec_add(c) == a.spec_add(c).spec_add(b),
{
    T::add_associates(a, b, c);
    T::add_commutes(b, c);
    T::add_associates(a, c, b);
}

/// Multiplication distributes over addition from the right.
pub proof fn lemma_mul_distributes_right<T: RingElement>(a: T, b: T, c: T)
    ensures
        a.spec_add(b).spec_mul(c) == a.spec_mul(c).spec_add(b.spec_mul(c)),
{
    T::mul_commutes(a.spec_add(b), c);
    T::mul_distributes(c, a, b);
    T::mul_commutes(c, a);
    T::mul_commutes(c, b);
}

/// Negation commutes with multiplication on the right factor.
pub proof fn lemma_mul_neg_right<T: RingElement>(a: T, b: T)
    ensures
        a.spec_mul(b.spec_neg()) == a.spec_mul(b).spec_neg(),
{
    T::mul_commutes(a, b.spec_neg());
    T::neg_mul_left(b, a);
    T::mul_commutes(b, a);
}

} // verus!
