use dense_matrix::Matrix;
use dense_matrix::MatrixError;

#[test]
fn test_integer_matrix_multiplication() -> Result<(), MatrixError> {
    let lhs: Matrix<i32> = Matrix::new(vec![vec![1, 2, 3], vec![4, 5, 6]])?;

    let rhs = Matrix::new(vec![vec![7, 8], vec![9, 10], vec![11, 12]])?;

    let result = lhs.mul(&rhs)?;
    let expected = Matrix::new(vec![vec![58, 64], vec![139, 154]])?;

    assert_eq!(result, expected);
    Ok(())
}

#[test]
fn matrix_test_integer_matrix_multiplication() -> Result<(), MatrixError> {
    let lhs: Matrix<i32> = Matrix::new(vec![vec![1, 2, 3], vec![4, 5, 6]])?;

    let rhs = Matrix::new(vec![vec![7, 8], vec![9, 10], vec![11, 12]])?;

    let result = lhs.mul(&rhs)?;
    let expected = Matrix::new(vec![vec![58, 64], vec![139, 154]])?;

    assert_eq!(result, expected);
    Ok(())
}

#[test]
fn test_integer_matrix_addition() -> Result<(), MatrixError> {
    let lhs: Matrix<i32> = Matrix::new(vec![vec![1, 2, 3], vec![4, 5, 6]])?;

    let rhs = Matrix::new(vec![vec![7, 8, 9], vec![10, 11, 12]])?;

    let result = lhs.add(&rhs)?;

    let expected = Matrix::new(vec![vec![8, 10, 12], vec![14, 16, 18]])?;

    assert_eq!(result, expected);
    Ok(())
}

#[test]
fn matrix_test_integer_matrix_addition() -> Result<(), MatrixError> {
    let lhs: Matrix<i32> = Matrix::new(vec![vec![1, 2, 3], vec![4, 5, 6]])?;

    let rhs = Matrix::new(vec![vec![7, 8, 9], vec![10, 11, 12]])?;

    let result = lhs.add(&rhs)?;

    let expected = Matrix::new(vec![vec![8, 10, 12], vec![14, 16, 18]])?;

    assert_eq!(result, expected);
    Ok(())
}

#[test]
fn construction_reports_dimensions() -> Result<(), MatrixError> {
    let m: Matrix<i32> = Matrix::new(vec![vec![1, 2, 3], vec![4, 5, 6]])?;
    assert_eq!(m.dimensions(), (2, 3));
    assert_eq!(m.data(), &vec![vec![1, 2, 3], vec![4, 5, 6]]);
    Ok(())
}

#[test]
fn construction_rejects_empty_input() {
    let no_rows: Result<Matrix<i32>, MatrixError> = Matrix::new(vec![]);
    assert!(matches!(no_rows, Err(MatrixError::EmptyMatrix)));

    let empty_first_row: Result<Matrix<i32>, MatrixError> = Matrix::new(vec![vec![]]);
    assert!(matches!(empty_first_row, Err(MatrixError::EmptyMatrix)));
}

#[test]
fn construction_rejects_ragged_rows() {
    let ragged: Result<Matrix<i32>, MatrixError> = Matrix::new(vec![vec![1, 2], vec![3]]);
    match ragged {
        Err(MatrixError::InvalidDimensions(msg)) => {
            assert_eq!(msg, "All rows must have the same length: row 1 has length 1, expected 2");
        }
        _ => panic!("ragged rows must be refused"),
    }
}

#[test]
fn zeros_is_all_zero_and_additive_identity() -> Result<(), MatrixError> {
    let z: Matrix<i32> = Matrix::zeros(3, 3)?;
    assert_eq!(z.dimensions(), (3, 3));
    for row in z.data() {
        for value in row {
            assert_eq!(*value, 0);
        }
    }
    let total = z.add(&Matrix::zeros(3, 3)?)?;
    assert_eq!(total, z);

    let a = Matrix::new(vec![vec![1, 2, 3], vec![4, 5, 6], vec![7, 8, 9]])?;
    assert_eq!(a.add(&Matrix::zeros(3, 3)?)?, a);
    Ok(())
}

#[test]
fn zeros_rejects_zero_dimension() {
    let refused: Result<Matrix<i32>, MatrixError> = Matrix::zeros(0, 2);
    match refused {
        Err(MatrixError::InvalidDimensions(msg)) => {
            assert_eq!(msg, "Dimensions must be positive: got 0x2");
        }
        _ => panic!("a zero dimension must be refused"),
    }
}

#[test]
fn addition_is_commutative_and_associative() -> Result<(), MatrixError> {
    let a: Matrix<i32> = Matrix::new(vec![vec![1, 2], vec![3, 4]])?;
    let b = Matrix::new(vec![vec![5, 6], vec![7, 8]])?;
    let c = Matrix::new(vec![vec![9, 10], vec![11, 12]])?;

    assert_eq!(a.add(&b)?, b.add(&a)?);
    assert_eq!(a.add(&b)?.add(&c)?, a.add(&b.add(&c)?)?);
    Ok(())
}

#[test]
fn addition_rejects_mismatched_shapes() -> Result<(), MatrixError> {
    let a: Matrix<i32> = Matrix::new(vec![vec![1, 2, 3], vec![4, 5, 6]])?;
    let b = Matrix::new(vec![vec![1, 2], vec![3, 4]])?;
    match a.add(&b) {
        Err(MatrixError::InvalidDimensions(msg)) => {
            assert_eq!(msg, "Cannot add 2x3 matrix with 2x2 matrix");
        }
        _ => panic!("mismatched shapes must be refused"),
    }
    Ok(())
}

#[test]
fn multiplication_by_identity_is_neutral() -> Result<(), MatrixError> {
    let a: Matrix<i32> = Matrix::new(vec![vec![1, 2], vec![3, 4]])?;
    let id = Matrix::new(vec![vec![1, 0], vec![0, 1]])?;
    assert_eq!(id.mul(&a)?, a);
    assert_eq!(a.mul(&id)?, a);
    Ok(())
}

#[test]
fn multiplication_rejects_mismatched_inner_dimensions() -> Result<(), MatrixError> {
    let a: Matrix<i32> = Matrix::new(vec![vec![1, 2, 3], vec![4, 5, 6]])?;
    let b = Matrix::new(vec![vec![1, 2], vec![3, 4]])?;
    match a.mul(&b) {
        Err(MatrixError::InvalidDimensions(msg)) => {
            assert_eq!(msg, "Cannot multiply 2x3 matrix with 2x2 matrix");
        }
        _ => panic!("mismatched inner dimensions must be refused"),
    }
    Ok(())
}

#[test]
fn operations_work_over_other_element_types() -> Result<(), MatrixError> {
    let a: Matrix<u8> = Matrix::new(vec![vec![1, 2], vec![3, 4]])?;
    let b: Matrix<u8> = Matrix::new(vec![vec![10, 20], vec![30, 40]])?;
    assert_eq!(a.add(&b)?, Matrix::new(vec![vec![11, 22], vec![33, 44]])?);

    let c: Matrix<i64> = Matrix::new(vec![vec![-1, 2], vec![3, -4]])?;
    let d: Matrix<i64> = Matrix::new(vec![vec![2, 0], vec![0, 2]])?;
    assert_eq!(c.mul(&d)?, Matrix::new(vec![vec![-2, 4], vec![6, -8]])?);
    Ok(())
}
