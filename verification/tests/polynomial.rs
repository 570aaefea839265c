use polynomial_ring::error::{DimensionKind, RingError};
use polynomial_ring::polynomial::Polynomial;
use polynomial_ring::ring::{ModInteger32, ModInteger64};

fn m32(values: &[u32]) -> Vec<ModInteger32> {
    values.iter().map(|&value| ModInteger32 { value }).collect()
}

fn m64(values: &[u64]) -> Vec<ModInteger64> {
    values.iter().map(|&value| ModInteger64 { value }).collect()
}

#[test]
fn test_check_coeff_length() {
    let poly = Polynomial { ring_degree: 10, coeffs: m32(&[1, 2, 3, 4, 5, 6, 7, 8, 9]) };
    assert_eq!(
        poly.check_coeff_length(),
        Err(RingError::MalformedPolynomial { ring_degree: 10, coeff_count: 9 })
    );
    let ok = Polynomial { ring_degree: 3, coeffs: m32(&[1, 2, 3]) };
    assert_eq!(ok.check_coeff_length(), Ok(()));
}

#[test]
fn test_add_known_answer() {
    let poly1 = Polynomial { ring_degree: 10, coeffs: m32(&[1, 2, 3, 4, 5, 6, 7, 8, 9, 10]) };
    let poly2 = Polynomial { ring_degree: 10, coeffs: m32(&[4, 5, 4, 8, 9, 1, 1, 1, 1, 3]) };

    let sum = poly1.add(&poly2).unwrap();

    assert_eq!(sum.ring_degree, poly1.ring_degree);
    assert_eq!(sum.coeffs, m32(&[5, 7, 7, 12, 14, 7, 8, 9, 10, 13]));
}

#[test]
fn test_multiply_known_answer() {
    let poly1 = Polynomial { ring_degree: 10, coeffs: m32(&[1, 2, 3, 4, 5, 6, 7, 8, 9, 10]) };
    let poly2 = Polynomial { ring_degree: 10, coeffs: m32(&[4, 5, 4, 8, 9, 1, 1, 1, 1, 3]) };

    let prod = poly1.multiply(&poly2).unwrap();

    assert_eq!(prod.ring_degree, poly1.ring_degree);
    assert_eq!(
        prod.coeffs,
        m32(&[241, 228, 225, 182, 129, 156, 183, 210, 237, 244])
    );
}

#[test]
fn test_multiply_by_x_known_answer() {
    let poly = Polynomial { ring_degree: 10, coeffs: m32(&[1, 2, 3, 4, 5, 6, 7, 8, 9, 10]) };

    let prod = poly.multiply_by_x().unwrap();

    assert_eq!(prod.ring_degree, poly.ring_degree);
    assert_eq!(prod.coeffs, m32(&[10, 1, 2, 3, 4, 5, 6, 7, 8, 9]));
}

#[test]
fn test_add_different_ring_degrees_fail_modint32() {
    let poly1: Polynomial<ModInteger32> = Polynomial::new(10);
    let poly2: Polynomial<ModInteger32> = Polynomial::new(14);
    assert_eq!(
        poly1.add(&poly2),
        Err(RingError::DimensionMismatch {
            kind: DimensionKind::RingDegree,
            expected: 10,
            actual: 14,
        })
    );
}

#[test]
fn test_add_different_ring_degrees_fail_modint64() {
    let poly1: Polynomial<ModInteger64> = Polynomial::new(10);
    let poly2: Polynomial<ModInteger64> = Polynomial::new(14);
    assert_eq!(
        poly1.add(&poly2),
        Err(RingError::DimensionMismatch {
            kind: DimensionKind::RingDegree,
            expected: 10,
            actual: 14,
        })
    );
}

#[test]
fn test_multiply_different_ring_degrees_fail_modint32() {
    let poly1: Polynomial<ModInteger32> = Polynomial::new(10);
    let poly2: Polynomial<ModInteger32> = Polynomial::new(14);
    assert_eq!(
        poly1.multiply(&poly2),
        Err(RingError::DimensionMismatch {
            kind: DimensionKind::RingDegree,
            expected: 10,
            actual: 14,
        })
    );
}

#[test]
fn test_multiply_different_ring_degrees_fail_modint64() {
    let poly1: Polynomial<ModInteger64> = Polynomial::new(10);
    let poly2: Polynomial<ModInteger64> = Polynomial::new(14);
    assert_eq!(
        poly1.multiply(&poly2),
        Err(RingError::DimensionMismatch {
            kind: DimensionKind::RingDegree,
            expected: 10,
            actual: 14,
        })
    );
}

#[test]
fn test_new_is_zero_polynomial() {
    let poly: Polynomial<ModInteger64> = Polynomial::new(5);
    assert_eq!(poly.ring_degree, 5);
    assert_eq!(poly.coeffs, m64(&[0, 0, 0, 0, 0]));
}

#[test]
fn test_add_commutative_modint32() {
    let poly1 = Polynomial { ring_degree: 4, coeffs: m32(&[4294967295, 17, 0, 250]) };
    let poly2 = Polynomial { ring_degree: 4, coeffs: m32(&[3, 4294967290, 1, 9]) };
    let sum1 = poly1.add(&poly2).unwrap();
    let sum2 = poly2.add(&poly1).unwrap();
    assert_eq!(sum1.coeffs, sum2.coeffs);
    assert_eq!(sum1.coeffs, m32(&[2, 11, 1, 259]));
}

#[test]
fn test_add_associative_modint64() {
    let poly1 = Polynomial { ring_degree: 3, coeffs: m64(&[u64::MAX, 5, 1]) };
    let poly2 = Polynomial { ring_degree: 3, coeffs: m64(&[2, u64::MAX - 1, 7]) };
    let poly3 = Polynomial { ring_degree: 3, coeffs: m64(&[10, 20, 30]) };
    let total1 = poly1.add(&poly2).unwrap().add(&poly3).unwrap();
    let total2 = poly1.add(&poly2.add(&poly3).unwrap()).unwrap();
    assert_eq!(total1.coeffs, total2.coeffs);
}

#[test]
fn test_multiply_commutative_modint32() {
    let poly1 = Polynomial { ring_degree: 5, coeffs: m32(&[4000000000, 2, 3, 4, 5]) };
    let poly2 = Polynomial { ring_degree: 5, coeffs: m32(&[9, 8, 3900000000, 6, 5]) };
    let prod1 = poly1.multiply(&poly2).unwrap();
    let prod2 = poly2.multiply(&poly1).unwrap();
    assert_eq!(prod1.coeffs, prod2.coeffs);
}

#[test]
fn test_multiply_associative_modint32() {
    let poly1 = Polynomial { ring_degree: 4, coeffs: m32(&[123456789, 2, 3, 4]) };
    let poly2 = Polynomial { ring_degree: 4, coeffs: m32(&[5, 987654321, 7, 8]) };
    let poly3 = Polynomial { ring_degree: 4, coeffs: m32(&[9, 10, 11, 3333333333]) };
    let total1 = poly1.multiply(&poly2).unwrap().multiply(&poly3).unwrap();
    let total2 = poly1.multiply(&poly2.multiply(&poly3).unwrap()).unwrap();
    assert_eq!(total1.coeffs, total2.coeffs);
}

#[test]
fn test_distributive_modint64() {
    let poly1 = Polynomial { ring_degree: 4, coeffs: m64(&[1, 2, u64::MAX - 4, 4]) };
    let poly2 = Polynomial { ring_degree: 4, coeffs: m64(&[5, 6, 7, 8]) };
    let poly3 = Polynomial { ring_degree: 4, coeffs: m64(&[9, 10, 11, 12]) };
    let total1 = poly1.multiply(&poly2.add(&poly3).unwrap()).unwrap();
    let total2 = poly1.multiply(&poly2).unwrap().add(&poly1.multiply(&poly3).unwrap()).unwrap();
    assert_eq!(total1.coeffs, total2.coeffs);
}

#[test]
fn test_multiply_by_x_compare_multiply() {
    let poly = Polynomial { ring_degree: 7, coeffs: m32(&[13, 0, 4294967295, 3, 900, 5, 6]) };
    let mut x_coeffs = m32(&[0, 0, 0, 0, 0, 0, 0]);
    x_coeffs[1] = ModInteger32 { value: 1 };
    let x_poly = Polynomial { ring_degree: 7, coeffs: x_coeffs };

    let prod1 = poly.multiply_by_x().unwrap();
    let prod2 = poly.multiply(&x_poly).unwrap();

    assert_eq!(prod1.ring_degree, prod2.ring_degree);
    assert_eq!(prod1.coeffs, prod2.coeffs);
}

#[test]
fn test_multiply_by_x_degree_one() {
    // In T[x]/(x - 1) the generator is the identity, so multiplying by x
    // changes nothing.
    let poly = Polynomial { ring_degree: 1, coeffs: m32(&[42]) };
    let x_poly = Polynomial { ring_degree: 1, coeffs: m32(&[1]) };
    let rotated = poly.multiply_by_x().unwrap();
    let multiplied = poly.multiply(&x_poly).unwrap();
    assert_eq!(rotated.coeffs, m32(&[42]));
    assert_eq!(rotated.coeffs, multiplied.coeffs);
}

#[test]
fn test_add_malformed_operand() {
    let bad = Polynomial { ring_degree: 3, coeffs: m32(&[1, 2]) };
    let good = Polynomial { ring_degree: 3, coeffs: m32(&[1, 2, 3]) };
    assert_eq!(
        bad.add(&good),
        Err(RingError::MalformedPolynomial { ring_degree: 3, coeff_count: 2 })
    );
    assert_eq!(
        good.multiply(&bad),
        Err(RingError::MalformedPolynomial { ring_degree: 3, coeff_count: 2 })
    );
    assert_eq!(
        bad.multiply_by_x(),
        Err(RingError::MalformedPolynomial { ring_degree: 3, coeff_count: 2 })
    );
}

#[test]
fn test_add_wraps_at_modulus() {
    let poly1 = Polynomial { ring_degree: 2, coeffs: m32(&[u32::MAX, 1]) };
    let poly2 = Polynomial { ring_degree: 2, coeffs: m32(&[1, 2]) };
    let sum = poly1.add(&poly2).unwrap();
    assert_eq!(sum.coeffs, m32(&[0, 3]));
}

#[test]
fn test_multiply_wraps_at_modulus() {
    // 2^31 * 2 wraps to zero mod 2^32; the cross terms stay small.
    let poly1 = Polynomial { ring_degree: 2, coeffs: m32(&[2147483648, 1]) };
    let poly2 = Polynomial { ring_degree: 2, coeffs: m32(&[2, 0]) };
    let prod = poly1.multiply(&poly2).unwrap();
    assert_eq!(prod.coeffs, m32(&[0, 2]));
}

#[test]
fn test_degree_zero_operands() {
    let poly1: Polynomial<ModInteger64> = Polynomial::new(0);
    let poly2: Polynomial<ModInteger64> = Polynomial::new(0);
    assert_eq!(poly1.add(&poly2).unwrap().coeffs, vec![]);
    assert_eq!(poly1.multiply(&poly2).unwrap().coeffs, vec![]);
    assert_eq!(poly1.multiply_by_x().unwrap().coeffs, vec![]);
}
