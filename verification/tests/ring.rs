use polynomial_ring::ring::{Complex, ModInteger32, ModInteger64};
use polynomial_ring::traits::{One, RingElement, Zero};

#[test]
fn test_modint32_add_wraps() {
    let a = ModInteger32 { value: u32::MAX };
    let b = ModInteger32 { value: 1 };
    assert_eq!(a.add(b), ModInteger32 { value: 0 });
    assert_eq!(a.add(a), ModInteger32 { value: u32::MAX - 1 });
}

#[test]
fn test_modint32_sub_wraps() {
    let a = ModInteger32 { value: 0 };
    let b = ModInteger32 { value: 1 };
    assert_eq!(a.sub(b), ModInteger32 { value: u32::MAX });
    assert_eq!(b.sub(a), ModInteger32 { value: 1 });
}

#[test]
fn test_modint32_mul_wraps() {
    let a = ModInteger32 { value: 1 << 31 };
    let b = ModInteger32 { value: 2 };
    assert_eq!(a.mul(b), ModInteger32 { value: 0 });
    let c = ModInteger32 { value: 65537 };
    assert_eq!(c.mul(c), ModInteger32 { value: 131073 });
}

#[test]
fn test_modint32_identities() {
    let a = ModInteger32 { value: 123456789 };
    assert_eq!(a.add(ModInteger32::zero()), a);
    assert_eq!(a.mul(ModInteger32::one()), a);
    assert_eq!(a.mul(ModInteger32::zero()), ModInteger32::zero());
}

#[test]
fn test_modint64_add_wraps() {
    let a = ModInteger64 { value: u64::MAX };
    let b = ModInteger64 { value: 2 };
    assert_eq!(a.add(b), ModInteger64 { value: 1 });
}

#[test]
fn test_modint64_sub_wraps() {
    let a = ModInteger64 { value: 5 };
    let b = ModInteger64 { value: 7 };
    assert_eq!(a.sub(b), ModInteger64 { value: u64::MAX - 1 });
}

#[test]
fn test_modint64_mul_wraps() {
    let a = ModInteger64 { value: 1 << 63 };
    let b = ModInteger64 { value: 2 };
    assert_eq!(a.mul(b), ModInteger64 { value: 0 });
}

#[test]
fn test_modint64_identities() {
    let a = ModInteger64 { value: 9876543210 };
    assert_eq!(a.add(ModInteger64::zero()), a);
    assert_eq!(a.mul(ModInteger64::one()), a);
}

#[test]
fn test_complex_add_componentwise() {
    let x = Complex { real: ModInteger32 { value: 1 }, imag: ModInteger32 { value: 2 } };
    let y = Complex { real: ModInteger32 { value: 30 }, imag: ModInteger32 { value: 40 } };
    assert_eq!(
        x.add(y),
        Complex { real: ModInteger32 { value: 31 }, imag: ModInteger32 { value: 42 } }
    );
}

#[test]
fn test_complex_mul_known_answer() {
    // (1 + 2i)(3 + 4i) = -5 + 10i; the real part wraps mod 2^32.
    let x = Complex { real: ModInteger32 { value: 1 }, imag: ModInteger32 { value: 2 } };
    let y = Complex { real: ModInteger32 { value: 3 }, imag: ModInteger32 { value: 4 } };
    assert_eq!(
        x.mul(y),
        Complex {
            real: ModInteger32 { value: 4294967291 },
            imag: ModInteger32 { value: 10 },
        }
    );
}

#[test]
fn test_complex_identities() {
    let x = Complex { real: ModInteger64 { value: 77 }, imag: ModInteger64 { value: 88 } };
    let one: Complex<ModInteger64> = Complex::one();
    let zero: Complex<ModInteger64> = Complex::zero();
    assert_eq!(x.mul(one), x);
    assert_eq!(x.add(zero), x);
    assert_eq!(x.mul(zero), zero);
}

#[test]
fn test_complex_mul_commutes() {
    let x = Complex { real: ModInteger64 { value: u64::MAX }, imag: ModInteger64 { value: 3 } };
    let y = Complex { real: ModInteger64 { value: 12345 }, imag: ModInteger64 { value: 67890 } };
    assert_eq!(x.mul(y), y.mul(x));
}
