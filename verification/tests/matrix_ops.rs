use libcommons::matrix::Matrix;

#[test]
fn get_test() {
    let matrix: Matrix<f32, 3, 2> = Matrix::new(vec![1.0, 2.0, 3.0, 4.0, 5.0, 6.0]);
    assert_eq!(matrix.get(1, 1), Some(&5.0));
}

#[test]
fn transpose_test() {
    let expected: Matrix<f32, 2, 3> = Matrix::new(vec![1.0, 4.0, 2.0, 5.0, 3.0, 6.0]);
    let matrix: Matrix<f32, 3, 2> = Matrix::new(vec![1.0, 2.0, 3.0, 4.0, 5.0, 6.0]);
    assert_eq!(expected, matrix.transposed());
}

#[test]
fn identity_test() {
    let matrix: Matrix<i64, 3, 2> = Matrix::new(vec![1, 2, 3, 4, 5, 6]);
    let identity: Matrix<i64, 3, 3> = Matrix::identity();
    assert_eq!(matrix.mul(&identity), matrix);
}

#[test]
fn multiply_test() {
    let first: Matrix<i64, 3, 2> = Matrix::new(vec![1, 2, 3, 4, 5, 6]);
    let second: Matrix<i64, 2, 3> = Matrix::new(vec![7, 8, 9, 10, 11, 12]);

    let expected: Matrix<i64, 2, 2> = Matrix::new(vec![58, 64, 139, 154]);
    assert_eq!(first.mul(&second), expected);
}

#[test]
fn add_test() {
    let first: Matrix<i64, 2, 2> = Matrix::new(vec![1, 2, 4, 5]);
    let second: Matrix<i64, 2, 2> = Matrix::new(vec![7, 8, 9, 10]);

    let expected: Matrix<i64, 2, 2> = Matrix::new(vec![8, 10, 13, 15]);
    assert_eq!(first.add(&second), expected);
}

#[test]
fn get_out_of_bounds() {
    let matrix: Matrix<i64, 2, 2> = Matrix::new(vec![1, 2, 3, 4]);
    assert_eq!(matrix.get(2, 0), None);
    assert_eq!(matrix.get(0, 2), None);
    assert_eq!(matrix.get(0, 0), Some(&1));
    assert_eq!(matrix.get(1, 1), Some(&4));
}

#[test]
fn identity_cells() {
    let identity: Matrix<i64, 2, 2> = Matrix::identity();
    let expected: Matrix<i64, 2, 2> = Matrix::new(vec![1, 0, 0, 1]);
    assert_eq!(identity, expected);
}

#[test]
fn get_mut_writes_cell() {
    let mut matrix: Matrix<i64, 2, 2> = Matrix::new(vec![1, 2, 3, 4]);
    assert!(matrix.get_mut(2, 0).is_none());
    if let Some(cell) = matrix.get_mut(1, 1) {
        *cell = 9;
    }
    let expected: Matrix<i64, 2, 2> = Matrix::new(vec![1, 2, 3, 9]);
    assert_eq!(matrix, expected);
}

#[test]
fn map_cells() {
    let matrix: Matrix<i64, 2, 2> = Matrix::new(vec![1, 2, 3, 4]);
    let doubled = matrix.map(|x| 2 * x);
    let expected: Matrix<i64, 2, 2> = Matrix::new(vec![2, 4, 6, 8]);
    assert_eq!(doubled, expected);
}
