use polynomial_ring::error::{DimensionKind, RingError};
use polynomial_ring::polynomial::Polynomial;
use polynomial_ring::ring::{Complex, ModInteger32};
use polynomial_ring::vector::{Matrix, Vector};

fn p32(ring_degree: usize, values: &[u32]) -> Polynomial<ModInteger32> {
    Polynomial {
        ring_degree,
        coeffs: values.iter().map(|&value| ModInteger32 { value }).collect(),
    }
}

fn v32(ring_degree: usize, entries: &[&[u32]]) -> Vector<ModInteger32> {
    Vector {
        ring_degree,
        length: entries.len(),
        polys: entries.iter().map(|values| p32(ring_degree, values)).collect(),
    }
}

fn mat32(ring_degree: usize, num_rows: usize, columns: &[&[&[u32]]]) -> Matrix<ModInteger32> {
    Matrix {
        ring_degree,
        num_rows,
        num_cols: columns.len(),
        cols: columns.iter().map(|entries| v32(ring_degree, entries)).collect(),
    }
}

fn coeff_values(poly: &Polynomial<ModInteger32>) -> Vec<u32> {
    poly.coeffs.iter().map(|c| c.value).collect()
}

#[test]
fn test_vector_add_known_answer() {
    let vec1 = v32(2, &[&[1, 2], &[3, 4]]);
    let vec2 = v32(2, &[&[10, 20], &[30, 40]]);
    let sum = vec1.add(&vec2).unwrap();
    assert_eq!(sum.length, 2);
    assert_eq!(sum.ring_degree, 2);
    assert_eq!(coeff_values(&sum.polys[0]), vec![11, 22]);
    assert_eq!(coeff_values(&sum.polys[1]), vec![33, 44]);
}

#[test]
fn test_vector_add_length_mismatch() {
    let vec1 = v32(2, &[&[1, 2], &[3, 4]]);
    let vec2 = v32(2, &[&[1, 2]]);
    assert_eq!(
        vec1.add(&vec2),
        Err(RingError::DimensionMismatch {
            kind: DimensionKind::VectorLength,
            expected: 2,
            actual: 1,
        })
    );
}

#[test]
fn test_vector_add_ring_degree_mismatch() {
    let vec1 = v32(2, &[&[1, 2]]);
    let vec2 = v32(3, &[&[1, 2, 3]]);
    assert_eq!(
        vec1.add(&vec2),
        Err(RingError::DimensionMismatch {
            kind: DimensionKind::RingDegree,
            expected: 2,
            actual: 3,
        })
    );
}

#[test]
fn test_vector_new_zeros() {
    let vec: Vector<ModInteger32> = Vector::new(3, 2);
    assert_eq!(vec.ring_degree, 3);
    assert_eq!(vec.length, 2);
    assert_eq!(vec.polys.len(), 2);
    assert_eq!(coeff_values(&vec.polys[0]), vec![0, 0, 0]);
    assert_eq!(coeff_values(&vec.polys[1]), vec![0, 0, 0]);
}

#[test]
fn test_dot_product_known_answer() {
    let vec1 = v32(2, &[&[1, 2], &[3, 4]]);
    let vec2 = v32(2, &[&[5, 6], &[7, 8]]);
    let dot = vec1.dot_product(&vec2).unwrap();
    assert_eq!(dot.ring_degree, 2);
    assert_eq!(coeff_values(&dot), vec![70, 68]);
}

#[test]
fn test_dot_product_length_mismatch() {
    let vec1 = v32(2, &[&[1, 2]]);
    let vec2 = v32(2, &[&[1, 2], &[3, 4]]);
    assert_eq!(
        vec1.dot_product(&vec2),
        Err(RingError::DimensionMismatch {
            kind: DimensionKind::VectorLength,
            expected: 1,
            actual: 2,
        })
    );
}

#[test]
fn test_dot_product_ring_degree_mismatch() {
    let vec1 = v32(2, &[&[1, 2]]);
    let vec2 = v32(3, &[&[1, 2, 3]]);
    assert_eq!(
        vec1.dot_product(&vec2),
        Err(RingError::DimensionMismatch {
            kind: DimensionKind::RingDegree,
            expected: 2,
            actual: 3,
        })
    );
}

#[test]
fn test_multiply_by_left_vector_ring_degree_mismatch() {
    let mat = mat32(1, 1, &[&[&[2]]]);
    let vec = v32(2, &[&[1, 5]]);
    assert_eq!(
        mat.multiply_by_left_vector(&vec),
        Err(RingError::DimensionMismatch {
            kind: DimensionKind::RingDegree,
            expected: 2,
            actual: 1,
        })
    );
}

#[test]
fn test_matrix_add_known_answer() {
    let mat1 = mat32(1, 2, &[&[&[1], &[2]], &[&[3], &[4]]]);
    let mat2 = mat32(1, 2, &[&[&[10], &[20]], &[&[30], &[40]]]);
    let sum = mat1.add(&mat2).unwrap();
    assert_eq!(sum.num_rows, 2);
    assert_eq!(sum.num_cols, 2);
    assert_eq!(coeff_values(&sum.cols[0].polys[0]), vec![11]);
    assert_eq!(coeff_values(&sum.cols[0].polys[1]), vec![22]);
    assert_eq!(coeff_values(&sum.cols[1].polys[0]), vec![33]);
    assert_eq!(coeff_values(&sum.cols[1].polys[1]), vec![44]);
}

#[test]
fn test_matrix_add_rows_mismatch() {
    let mat1 = mat32(1, 2, &[&[&[1], &[2]]]);
    let mat2 = mat32(1, 1, &[&[&[1]]]);
    assert_eq!(
        mat1.add(&mat2),
        Err(RingError::DimensionMismatch {
            kind: DimensionKind::MatrixRows,
            expected: 2,
            actual: 1,
        })
    );
}

#[test]
fn test_matrix_add_cols_mismatch() {
    let mat1 = mat32(1, 1, &[&[&[1]], &[&[2]]]);
    let mat2 = mat32(1, 1, &[&[&[1]]]);
    assert_eq!(
        mat1.add(&mat2),
        Err(RingError::DimensionMismatch {
            kind: DimensionKind::MatrixCols,
            expected: 2,
            actual: 1,
        })
    );
}

#[test]
fn test_matrix_add_ring_degree_mismatch() {
    let mat1 = mat32(1, 1, &[&[&[1]]]);
    let mat2 = mat32(2, 1, &[&[&[1, 2]]]);
    assert_eq!(
        mat1.add(&mat2),
        Err(RingError::DimensionMismatch {
            kind: DimensionKind::RingDegree,
            expected: 1,
            actual: 2,
        })
    );
}

#[test]
fn test_multiply_by_left_vector_known_answer() {
    // Columns [[2], [3]] and [[4], [5]] over the degree-one ring, times
    // the row vector [1, 10] on the left: entries 1*2 + 10*3 and
    // 1*4 + 10*5.
    let mat = mat32(1, 2, &[&[&[2], &[3]], &[&[4], &[5]]]);
    let vec = v32(1, &[&[1], &[10]]);
    let prod = mat.multiply_by_left_vector(&vec).unwrap();
    assert_eq!(prod.length, 2);
    assert_eq!(coeff_values(&prod.polys[0]), vec![32]);
    assert_eq!(coeff_values(&prod.polys[1]), vec![54]);
}

#[test]
fn test_multiply_by_left_vector_rows_mismatch() {
    let mat = mat32(1, 2, &[&[&[2], &[3]]]);
    let vec = v32(1, &[&[1]]);
    assert_eq!(
        mat.multiply_by_left_vector(&vec),
        Err(RingError::DimensionMismatch {
            kind: DimensionKind::MatrixRows,
            expected: 2,
            actual: 1,
        })
    );
}

#[test]
fn test_matrix_vector_distributive() {
    // v * (M1 + M2) agrees with v * M1 + v * M2, entry by entry.
    let mat1 = mat32(2, 2, &[&[&[1, 2], &[3, 4]], &[&[5, 6], &[7, 8]]]);
    let mat2 = mat32(2, 2, &[&[&[9, 1], &[2, 7]], &[&[4, 4], &[1, 1]]]);
    let vec = v32(2, &[&[2, 1], &[3, 5]]);

    let lhs = mat1.add(&mat2).unwrap().multiply_by_left_vector(&vec).unwrap();
    let rhs1 = mat1.multiply_by_left_vector(&vec).unwrap();
    let rhs2 = mat2.multiply_by_left_vector(&vec).unwrap();
    let rhs = rhs1.add(&rhs2).unwrap();

    assert_eq!(lhs.length, rhs.length);
    for i in 0..lhs.polys.len() {
        assert_eq!(coeff_values(&lhs.polys[i]), coeff_values(&rhs.polys[i]));
    }
}

#[test]
fn test_complex_polynomial_multiply() {
    // (1 + i x) * (2 + 3 x) in Complex<ModInteger32>[x]/(x^2 - 1):
    // coefficient 0 is 2 + 3i, coefficient 1 is 3 + 2i.
    let one_then_i = Polynomial {
        ring_degree: 2,
        coeffs: vec![
            Complex { real: ModInteger32 { value: 1 }, imag: ModInteger32 { value: 0 } },
            Complex { real: ModInteger32 { value: 0 }, imag: ModInteger32 { value: 1 } },
        ],
    };
    let two_then_three = Polynomial {
        ring_degree: 2,
        coeffs: vec![
            Complex { real: ModInteger32 { value: 2 }, imag: ModInteger32 { value: 0 } },
            Complex { real: ModInteger32 { value: 3 }, imag: ModInteger32 { value: 0 } },
        ],
    };
    let prod = one_then_i.multiply(&two_then_three).unwrap();
    assert_eq!(
        prod.coeffs,
        vec![
            Complex { real: ModInteger32 { value: 2 }, imag: ModInteger32 { value: 3 } },
            Complex { real: ModInteger32 { value: 3 }, imag: ModInteger32 { value: 2 } },
        ]
    );
}
