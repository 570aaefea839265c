//! Concrete ring element types: fixed-width modular integers and complex
//! numbers over an arbitrary ring element type.
use vstd::prelude::*;

use crate::traits::{
    lemma_add_pairs_cycle, lemma_add_pairs_rearrange, lemma_mul_distributes_right,
    lemma_mul_neg_right, lemma_neg_zero, lemma_zero_add_identity, One, RingElement, Zero,
};
use vstd::arithmetic::div_mod::{
    lemma_add_mod_noop, lemma_add_mod_noop_right, lemma_mod_add_multiples_vanish,
    lemma_mod_self_0, lemma_mod_sub_multiples_vanish, lemma_mul_mod_noop_left,
    lemma_mul_mod_noop_right, lemma_small_mod, lemma_sub_mod_noop_right,
};
use vstd::arithmetic::mul::{
    lemma_mul_is_associative, lemma_mul_is_commutative, lemma_mul_is_distributive_add,
    lemma_mul_is_distributive_sub_other_way,
};

verus! {

/// The modulus 2^32 of [`ModInteger32`].
pub open spec fn modulus32() -> int {
    0x1_0000_0000
}

/// The modulus 2^64 of [`ModInteger64`].
pub open spec fn modulus64() -> int {
    0x1_0000_0000_0000_0000
}

/// Residues mod m add associatively: reducing after the first addition does
/// not change the final residue.
proof fn lemma_mod_add_assoc(a: int, b: int, c: int, m: int)
    requires
        0 < m,
    ensures
        (((a + b) % m) + c) % m == (a + ((b + c) % m)) % m,
{
    lemma_add_mod_noop(a + b, c, m);
    lemma_small_mod((if 0 <= c < m { c } else { 0 }) as nat, m as nat);
    lemma_add_mod_noop_left_int(a + b, c, m);
    lemma_add_mod_noop_right(a, b + c, m);
}

/// Residues mod m: reducing only the left summand does not change the sum's
/// residue.
proof fn lemma_add_mod_noop_left_int(x: int, y: int, m: int)
    requires
        0 < m,
    ensures
        ((x % m) + y) % m == (x + y) % m,
{
    lemma_add_mod_noop_right(y, x, m);
}

/// Residues mod m multiply associatively.
proof fn lemma_mod_mul_assoc(a: int, b: int, c: int, m: int)
    requires
        0 < m,
    ensures
        (((a * b) % m) * c) % m == (a * ((b * c) % m)) % m,
{
    lemma_mul_mod_noop_left(a * b, c, m);
    lemma_mul_mod_noop_right(a, b * c, m);
    lemma_mul_is_associative(a, b, c);
}

/// Residues mod m distribute: multiplying into a reduced sum equals the
/// reduced sum of the reduced products.
proof fn lemma_mod_distrib(a: int, b: int, c: int, m: int)
    requires
        0 < m,
    ensures
        (a * ((b + c) % m)) % m == (((a * b) % m) + ((a * c) % m)) % m,
{
    lemma_mul_mod_noop_right(a, b + c, m);
    lemma_mul_is_distributive_add(a, b, c);
    lemma_add_mod_noop(a * b, a * c, m);
}

/// The complement m - (x % m), reduced, is the residue of -x.
proof fn lemma_mod_neg(x: int, m: int)
    requires
        0 < m,
    ensures
        (m - (x % m)) % m == (-x) % m,
{
    lemma_mod_add_multiples_vanish(-(x % m), m);
    lemma_sub_mod_noop_right(0, x, m);
}

/// A complex number over any ring element type: the ring T[i] of pairs
/// a + b*i with i^2 = -1.
#[derive(Debug, Clone, Copy, PartialEq, Eq)]
pub struct Complex<T: RingElement> {
    pub real: T,
    pub imag: T,
}

impl<T: RingElement> Zero for Complex<T> {
    open spec fn spec_zero() -> Self {
        Complex { real: T::spec_zero(), imag: T::spec_zero() }
    }

    fn zero() -> (r: Self) {
        Complex { real: T::zero(), imag: T::zero() }
    }
}

impl<T: RingElement> One for Complex<T> {
    open spec fn spec_one() -> Self {
        Complex { real: T::spec_one(), imag: T::spec_zero() }
    }

    fn one() -> (r: Self) {
        Complex { real: T::one(), imag: T::zero() }
    }
}

impl<T: RingElement> RingElement for Complex<T> {
    open spec fn spec_add(self, other: Self) -> Self {
        Complex {
            real: self.real.spec_add(other.real),
            imag: self.imag.spec_add(other.imag),
        }
    }

    open spec fn spec_sub(self, other: Self) -> Self {
        Complex {
            real: self.real.spec_sub(other.real),
            imag: self.imag.spec_sub(other.imag),
        }
    }

    open spec fn spec_mul(self, other: Self) -> Self {
        Complex {
            real: self.real.spec_mul(other.real).spec_sub(self.imag.spec_mul(other.imag)),
            imag: self.real.spec_mul(other.imag).spec_add(self.imag.spec_mul(other.real)),
        }
    }

    open spec fn spec_neg(self) -> Self {
        Complex { real: self.real.spec_neg(), imag: self.imag.spec_neg() }
    }

    fn add(self, other: Self) -> (r: Self) {
        Complex {
            real: self.real.add(other.real),
            imag: self.imag.add(other.imag),
        }
    }

    fn sub(self, other: Self) -> (r: Self) {
        Complex {
            real: self.real.sub(other.real),
            imag: self.imag.sub(other.imag),
        }
    }

    fn mul(self, other: Self) -> (r: Self) {
        Complex {
            real: self.real.mul(other.real).sub(self.imag.mul(other.imag)),
            imag: self.real.mul(other.imag).add(self.imag.mul(other.real)),
        }
    }

    proof fn add_commutes(a: Self, b: Self) {
        T::add_commutes(a.real, b.real);
        T::add_commutes(a.imag, b.imag);
    }

    proof fn add_associates(a: Self, b: Self, c: Self) {
        T::add_associates(a.real, b.real, c.real);
        T::add_associates(a.imag, b.imag, c.imag);
    }

    proof fn add_zero_identity(a: Self) {
        T::add_zero_identity(a.real);
        T::add_zero_identity(a.imag);
    }

    proof fn mul_commutes(a: Self, b: Self) {
        T::mul_commutes(a.real, b.real);
        T::mul_commutes(a.imag, b.imag);
        T::mul_commutes(a.real, b.imag);
        T::mul_commutes(a.imag, b.real);
        T::add_commutes(a.real.spec_mul(b.imag), a.imag.spec_mul(b.real));
    }

    proof fn mul_associates(x: Self, y: Self, z: Self) {
        let a = x.real;
        let b = x.imag;
        let c = y.real;
        let d = y.imag;
        let e = z.real;
        let f = z.imag;
        let ac = a.spec_mul(c);
        let bd = b.spec_mul(d);
        let ad = a.spec_mul(d);
        let bc = b.spec_mul(c);
        let ce = c.spec_mul(e);
        let df = d.spec_mul(f);
        let cf = c.spec_mul(f);
        let de = d.spec_mul(e);
        // Real component of (x*y)*z.
        T::sub_adds_neg(ac, bd);
        T::sub_adds_neg(ac.spec_add(bd.spec_neg()).spec_mul(e), ad.spec_add(bc).spec_mul(f));
        lemma_mul_distributes_right(ac, bd.spec_neg(), e);
        T::neg_mul_left(bd, e);
        lemma_mul_distributes_right(ad, bc, f);
        T::neg_distributes(ad.spec_mul(f), bc.spec_mul(f));
        // Real component of x*(y*z).
        T::sub_adds_neg(ce, df);
        T::sub_adds_neg(a.spec_mul(ce.spec_add(df.spec_neg())), b.spec_mul(cf.spec_add(de)));
        T::mul_distributes(a, ce, df.spec_neg());
        lemma_mul_neg_right(a, df);
        T::mul_distributes(b, cf, de);
        T::neg_distributes(b.spec_mul(cf), b.spec_mul(de));
        // The four monomials agree after reassociating the triple products.
        T::mul_associates(a, c, e);
        T::mul_associates(b, d, e);
        T::mul_associates(a, d, f);
        T::mul_associates(b, c, f);
        lemma_add_pairs_cycle(
            a.spec_mul(ce),
            b.spec_mul(de).spec_neg(),
            a.spec_mul(df).spec_neg(),
            b.spec_mul(cf).spec_neg(),
        );
        // Imaginary component of (x*y)*z.
        lemma_mul_distributes_right(ac, bd.spec_neg(), f);
        T::neg_mul_left(bd, f);
        lemma_mul_distributes_right(ad, bc, e);
        // Imaginary component of x*(y*z).
        T::mul_distributes(a, cf, de);
        T::mul_distributes(b, ce, df.spec_neg());
        lemma_mul_neg_right(b, df);
        T::mul_associates(a, c, f);
        T::mul_associates(b, d, f);
        T::mul_associates(a, d, e);
        T::mul_associates(b, c, e);
        lemma_add_pairs_cycle(
            a.spec_mul(cf),
            b.spec_mul(df).spec_neg(),
            a.spec_mul(de),
            b.spec_mul(ce),
        );
    }

    proof fn mul_one_identity(a: Self) {
        T::mul_one_identity(a.real);
        T::mul_one_identity(a.imag);
        T::mul_zero_annihilates(a.real);
        T::mul_zero_annihilates(a.imag);
        T::sub_adds_neg(a.real, T::spec_zero());
        lemma_neg_zero::<T>();
        T::add_zero_identity(a.real);
        lemma_zero_add_identity(a.imag);
    }

    proof fn mul_zero_annihilates(a: Self) {
        T::mul_zero_annihilates(a.real);
        T::mul_zero_annihilates(a.imag);
        T::sub_adds_neg(T::spec_zero(), T::spec_zero());
        lemma_neg_zero::<T>();
        T::add_zero_identity(T::spec_zero());
    }

    proof fn mul_distributes(x: Self, y: Self, z: Self) {
        let a = x.real;
        let b = x.imag;
        let c = y.real;
        let d = y.imag;
        let e = z.real;
        let f = z.imag;
        let ac = a.spec_mul(c);
        let ae = a.spec_mul(e);
        let bd = b.spec_mul(d);
        let bf = b.spec_mul(f);
        let ad = a.spec_mul(d);
        let af = a.spec_mul(f);
        let bc = b.spec_mul(c);
        let be = b.spec_mul(e);
        // Real components.
        T::sub_adds_neg(a.spec_mul(c.spec_add(e)), b.spec_mul(d.spec_add(f)));
        T::mul_distributes(a, c, e);
        T::mul_distributes(b, d, f);
        T::neg_distributes(bd, bf);
        T::sub_adds_neg(ac, bd);
        T::sub_adds_neg(ae, bf);
        lemma_add_pairs_rearrange(ac, ae, bd.spec_neg(), bf.spec_neg());
        // Imaginary components.
        T::mul_distributes(a, d, f);
        T::mul_distributes(b, c, e);
        lemma_add_pairs_rearrange(ad, af, bc, be);
    }

    proof fn sub_adds_neg(a: Self, b: Self) {
        T::sub_adds_neg(a.real, b.real);
        T::sub_adds_neg(a.imag, b.imag);
    }

    proof fn neg_distributes(a: Self, b: Self) {
        T::neg_distributes(a.real, b.real);
        T::neg_distributes(a.imag, b.imag);
    }

    proof fn neg_mul_left(x: Self, y: Self) {
        let a = x.real;
        let b = x.imag;
        let c = y.real;
        let d = y.imag;
        T::sub_adds_neg(a.spec_neg().spec_mul(c), b.spec_neg().spec_mul(d));
        T::neg_mul_left(a, c);
        T::neg_mul_left(b, d);
        T::neg_mul_left(a, d);
        T::neg_mul_left(b, c);
        T::sub_adds_neg(a.spec_mul(c), b.spec_mul(d));
        T::neg_distributes(a.spec_mul(c), b.spec_mul(d).spec_neg());
        T::neg_distributes(a.spec_mul(d), b.spec_mul(c));
    }

    proof fn add_neg_inverse(a: Self) {
        T::add_neg_inverse(a.real);
        T::add_neg_inverse(a.imag);
    }
}

/// An integer in the ring of residues mod 2^32.
///
/// The stored value always lies in [0, 2^32) because it is a native `u32`;
/// addition and multiplication wrap at the type's bit width.
#[derive(Debug, Clone, Copy, PartialEq, Eq, Structural)]
pub struct ModInteger32 {
    pub value: u32,
}

impl Zero for ModInteger32 {
    open spec fn spec_zero() -> Self {
        ModInteger32 { value: 0 }
    }

    fn zero() -> (r: Self) {
        ModInteger32 { value: 0 }
    }
}

impl One for ModInteger32 {
    open spec fn spec_one() -> Self {
        ModInteger32 { value: 1 }
    }

    fn one() -> (r: Self) {
        ModInteger32 { value: 1 }
    }
}

impl RingElement for ModInteger32 {
    open spec fn spec_add(self, other: Self) -> Self {
        ModInteger32 { value: (((self.value + other.value) % modulus32()) as u32) }
    }

    open spec fn spec_sub(self, other: Self) -> Self {
        ModInteger32 { value: (((self.value - other.value) % modulus32()) as u32) }
    }

    open spec fn spec_mul(self, other: Self) -> Self {
        ModInteger32 { value: (((self.value * other.value) % modulus32()) as u32) }
    }

    open spec fn spec_neg(self) -> Self {
        ModInteger32 { value: (((modulus32() - self.value) % modulus32()) as u32) }
    }

    fn add(self, other: Self) -> (r: Self) {
        proof {
            if self.value + other.value <= u32::MAX {
                lemma_small_mod((self.value + other.value) as nat, modulus32() as nat);
            } else {
                lemma_mod_sub_multiples_vanish(self.value + other.value, modulus32());
                lemma_small_mod((self.value + other.value - modulus32()) as nat, modulus32() as nat);
            }
        }
        ModInteger32 { value: self.value.wrapping_add(other.value) }
    }

    fn sub(self, other: Self) -> (r: Self) {
        proof {
            if self.value >= other.value {
                lemma_small_mod((self.value - other.value) as nat, modulus32() as nat);
            } else {
                lemma_mod_add_multiples_vanish(self.value - other.value, modulus32());
                lemma_small_mod((self.value - other.value + modulus32()) as nat, modulus32() as nat);
            }
        }
        ModInteger32 { value: self.value.wrapping_sub(other.value) }
    }

    fn mul(self, other: Self) -> (r: Self) {
        ModInteger32 { value: self.value.wrapping_mul(other.value) }
    }

    proof fn add_commutes(a: Self, b: Self) {
    }

    proof fn add_associates(a: Self, b: Self, c: Self) {
        lemma_mod_add_assoc(a.value as int, b.value as int, c.value as int, modulus32());
    }

    proof fn add_zero_identity(a: Self) {
        lemma_small_mod(a.value as nat, modulus32() as nat);
    }

    proof fn mul_commutes(a: Self, b: Self) {
        lemma_mul_is_commutative(a.value as int, b.value as int);
    }

    proof fn mul_associates(a: Self, b: Self, c: Self) {
        lemma_mod_mul_assoc(a.value as int, b.value as int, c.value as int, modulus32());
    }

    proof fn mul_one_identity(a: Self) {
        lemma_small_mod(a.value as nat, modulus32() as nat);
    }

    proof fn mul_zero_annihilates(a: Self) {
        lemma_small_mod(0, modulus32() as nat);
    }

    proof fn mul_distributes(a: Self, b: Self, c: Self) {
        lemma_mod_distrib(a.value as int, b.value as int, c.value as int, modulus32());
    }

    proof fn sub_adds_neg(a: Self, b: Self) {
        let m = modulus32();
        lemma_small_mod(b.value as nat, m as nat);
        lemma_mod_neg(b.value as int, m);
        lemma_add_mod_noop_right(a.value as int, -(b.value as int), m);
    }

    proof fn neg_distributes(a: Self, b: Self) {
        let m = modulus32();
        lemma_mod_neg(a.value + b.value, m);
        lemma_small_mod(a.value as nat, m as nat);
        lemma_small_mod(b.value as nat, m as nat);
        lemma_mod_neg(a.value as int, m);
        lemma_mod_neg(b.value as int, m);
        lemma_add_mod_noop(-(a.value as int), -(b.value as int), m);
    }

    proof fn neg_mul_left(a: Self, b: Self) {
        let m = modulus32();
        lemma_small_mod(a.value as nat, m as nat);
        lemma_mod_neg(a.value as int, m);
        lemma_mul_mod_noop_left(-(a.value as int), b.value as int, m);
        lemma_mod_neg(a.value * b.value, m);
        assert((-(a.value as int)) * b.value == -(a.value * b.value)) by {
            lemma_mul_is_distributive_sub_other_way(b.value as int, 0, a.value as int);
        }
    }

    proof fn add_neg_inverse(a: Self) {
        let m = modulus32();
        lemma_mod_self_0(m);
        if a.value == 0 {
            lemma_small_mod(0, m as nat);
        } else {
            lemma_small_mod((m - a.value) as nat, m as nat);
        }
    }
}

/// An integer in the ring of residues mod 2^64.
///
/// The stored value always lies in [0, 2^64) because it is a native `u64`;
/// addition and multiplication wrap at the type's bit width.
#[derive(Debug, Clone, Copy, PartialEq, Eq, Structural)]
pub struct ModInteger64 {
    pub value: u64,
}

impl Zero for ModInteger64 {
    open spec fn spec_zero() -> Self {
        ModInteger64 { value: 0 }
    }

    fn zero() -> (r: Self) {
        ModInteger64 { value: 0 }
    }
}

impl One for ModInteger64 {
    open spec fn spec_one() -> Self {
        ModInteger64 { value: 1 }
    }

    fn one() -> (r: Self) {
        ModInteger64 { value: 1 }
    }
}

impl RingElement for ModInteger64 {
    open spec fn spec_add(self, other: Self) -> Self {
        ModInteger64 { value: (((self.value + other.value) % modulus64()) as u64) }
    }

    open spec fn spec_sub(self, other: Self) -> Self {
        ModInteger64 { value: (((self.value - other.value) % modulus64()) as u64) }
    }

    open spec fn spec_mul(self, other: Self) -> Self {
        ModInteger64 { value: (((self.value * other.value) % modulus64()) as u64) }
    }

    open spec fn spec_neg(self) -> Self {
        ModInteger64 { value: (((modulus64() - self.value) % modulus64()) as u64) }
    }

    fn add(self, other: Self) -> (r: Self) {
        proof {
            if self.value + other.value <= u64::MAX {
                lemma_small_mod((self.value + other.value) as nat, modulus64() as nat);
            } else {
                lemma_mod_sub_multiples_vanish(self.value + other.value, modulus64());
                lemma_small_mod((self.value + other.value - modulus64()) as nat, modulus64() as nat);
            }
        }
        ModInteger64 { value: self.value.wrapping_add(other.value) }
    }

    fn sub(self, other: Self) -> (r: Self) {
        proof {
            if self.value >= other.value {
                lemma_small_mod((self.value - other.value) as nat, modulus64() as nat);
            } else {
                lemma_mod_add_multiples_vanish(self.value - other.value, modulus64());
                lemma_small_mod((self.value - other.value + modulus64()) as nat, modulus64() as nat);
            }
        }
        ModInteger64 { value: self.value.wrapping_sub(other.value) }
    }

    fn mul(self, other: Self) -> (r: Self) {
        ModInteger64 { value: self.value.wrapping_mul(other.value) }
    }

    proof fn add_commutes(a: Self, b: Self) {
    }

    proof fn add_associates(a: Self, b: Self, c: Self) {
        lemma_mod_add_assoc(a.value as int, b.value as int, c.value as int, modulus64());
    }

    proof fn add_zero_identity(a: Self) {
        lemma_small_mod(a.value as nat, modulus64() as nat);
    }

    proof fn mul_commutes(a: Self, b: Self) {
        lemma_mul_is_commutative(a.value as int, b.value as int);
    }

    proof fn mul_associates(a: Self, b: Self, c: Self) {
        lemma_mod_mul_assoc(a.value as int, b.value as int, c.value as int, modulus64());
    }

    proof fn mul_one_identity(a: Self) {
        lemma_small_mod(a.value as nat, modulus64() as nat);
    }

    proof fn mul_zero_annihilates(a: Self) {
        lemma_small_mod(0, modulus64() as nat);
    }

    proof fn mul_distributes(a: Self, b: Self, c: Self) {
        lemma_mod_distrib(a.value as int, b.value as int, c.value as int, modulus64());
    }

    proof fn sub_adds_neg(a: Self, b: Self) {
        let m = modulus64();
        lemma_small_mod(b.value as nat, m as nat);
        lemma_mod_neg(b.value as int, m);
        lemma_add_mod_noop_right(a.value as int, -(b.value as int), m);
    }

    proof fn neg_distributes(a: Self, b: Self) {
        let m = modulus64();
        lemma_mod_neg(a.value + b.value, m);
        lemma_small_mod(a.value as nat, m as nat);
        lemma_small_mod(b.value as nat, m as nat);
        lemma_mod_neg(a.value as int, m);
        lemma_mod_neg(b.value as int, m);
        lemma_add_mod_noop(-(a.value as int), -(b.value as int), m);
    }

    proof fn neg_mul_left(a: Self, b: Self) {
        let m = modulus64();
        lemma_small_mod(a.value as nat, m as nat);
        lemma_mod_neg(a.value as int, m);
        lemma_mul_mod_noop_left(-(a.value as int), b.value as int, m);
        lemma_mod_neg(a.value * b.value, m);
        assert((-(a.value as int)) * b.value == -(a.value * b.value)) by {
            lemma_mul_is_distributive_sub_other_way(b.value as int, 0, a.value as int);
        }
    }

    proof fn add_neg_inverse(a: Self) {
        let m = modulus64();
        lemma_mod_self_0(m);
        if a.value == 0 {
            lemma_small_mod(0, m as nat);
        } else {
            lemma_small_mod((m - a.value) as nat, m as nat);
        }
    }
}

} // verus!
