use perceptron::{Matrix, Scalar};

fn matrix(rows: usize, cols: usize, values: &[i64]) -> Matrix<i64> {
    assert_eq!(values.len(), rows * cols);
    Matrix { rows, cols, data: values.to_vec() }
}

fn assert_same(actual: &Matrix<i64>, expected: &Matrix<i64>) {
    assert_eq!(actual.rows, expected.rows);
    assert_eq!(actual.cols, expected.cols);
    assert_eq!(actual.data, expected.data);
}

#[test]
fn new_is_zero_filled() {
    let m: Matrix<i64> = Matrix::new(2, 3);
    assert_eq!(m.rows, 2);
    assert_eq!(m.cols, 3);
    assert_eq!(m.data, vec![0; 6]);
}

#[test]
fn new_without_rows_or_columns_is_empty() {
    let a: Matrix<i64> = Matrix::new(0, 4);
    assert_eq!((a.rows, a.cols, a.data.len()), (0, 4, 0));
    let b: Matrix<i64> = Matrix::new(4, 0);
    assert_eq!((b.rows, b.cols, b.data.len()), (4, 0, 0));
}

#[test]
fn get_reads_row_major() {
    let m = matrix(2, 3, &[1, 2, 3, 4, 5, 6]);
    assert_eq!(m.get(0, 0), 1);
    assert_eq!(m.get(0, 2), 3);
    assert_eq!(m.get(1, 0), 4);
    assert_eq!(m.get(1, 2), 6);
}

#[test]
fn set_replaces_one_element() {
    let mut m = matrix(2, 3, &[1, 2, 3, 4, 5, 6]);
    m.set(1, 1, 50);
    assert_same(&m, &matrix(2, 3, &[1, 2, 3, 4, 50, 6]));
    m.set(0, 2, -3);
    assert_same(&m, &matrix(2, 3, &[1, 2, -3, 4, 50, 6]));
}

#[test]
fn clone_keeps_shape_and_elements() {
    let m = matrix(2, 3, &[1, 2, 3, 4, 5, 6]);
    assert_same(&m.clone(), &m);
}

#[test]
fn transpose_exchanges_rows_and_columns() {
    let m = matrix(2, 3, &[1, 2, 3, 4, 5, 6]);
    assert_same(&m.transpose(), &matrix(3, 2, &[1, 4, 2, 5, 3, 6]));
}

#[test]
fn transpose_of_a_row_is_a_column() {
    let m = matrix(1, 4, &[7, 8, 9, 10]);
    assert_same(&m.transpose(), &matrix(4, 1, &[7, 8, 9, 10]));
}

#[test]
fn transpose_twice_gives_the_matrix_back() {
    let m = matrix(3, 4, &[1, 2, 3, 4, 5, 6, 7, 8, 9, 10, 11, 12]);
    assert_same(&m.transpose().transpose(), &m);
    let empty = matrix(0, 3, &[]);
    assert_same(&empty.transpose().transpose(), &empty);
}

#[test]
fn add_is_elementwise() {
    let a = matrix(2, 2, &[1, 2, 3, 4]);
    let b = matrix(2, 2, &[10, 20, 30, 40]);
    assert_same(&a.add(&b), &matrix(2, 2, &[11, 22, 33, 44]));
}

#[test]
fn sub_is_elementwise() {
    let a = matrix(2, 2, &[1, 2, 3, 4]);
    let b = matrix(2, 2, &[10, 20, 30, 40]);
    assert_same(&a.sub(&b), &matrix(2, 2, &[-9, -18, -27, -36]));
}

#[test]
fn add_then_sub_gives_the_first_operand_back() {
    let a = matrix(2, 3, &[1, -2, 3, i64::MAX, i64::MIN, 0]);
    let b = matrix(2, 3, &[5, 6, -7, 1, -1, i64::MAX]);
    assert_same(&a.add(&b).sub(&b), &a);
}

#[test]
fn mul_is_rows_times_columns() {
    let a = matrix(2, 3, &[1, 2, 3, 4, 5, 6]);
    let b = matrix(3, 2, &[7, 8, 9, 10, 11, 12]);
    assert_same(&a.mul(&b), &matrix(2, 2, &[58, 64, 139, 154]));
    assert_same(&b.mul(&a), &matrix(3, 3, &[39, 54, 69, 49, 68, 87, 59, 82, 105]));
}

#[test]
fn mul_of_a_column_and_a_row_is_their_outer_product() {
    let column = matrix(3, 1, &[1, 2, 3]);
    let row = matrix(1, 2, &[4, 5]);
    assert_same(&column.mul(&row), &matrix(3, 2, &[4, 5, 8, 10, 12, 15]));
}

#[test]
fn mul_over_no_terms_is_zero() {
    let a = matrix(2, 0, &[]);
    let b = matrix(0, 2, &[]);
    assert_same(&a.mul(&b), &matrix(2, 2, &[0, 0, 0, 0]));
}

#[test]
fn transpose_of_a_product_is_the_product_of_the_transposes() {
    let a = matrix(2, 3, &[1, 2, 3, 4, 5, 6]);
    let b = matrix(3, 4, &[1, 0, -1, 2, 3, 5, 7, 11, -2, 4, 6, 8]);
    assert_same(&a.mul(&b).transpose(), &b.transpose().mul(&a.transpose()));
}

#[test]
fn mul_scalar_multiplies_every_element() {
    let a = matrix(2, 2, &[1, -2, 3, 4]);
    assert_same(&a.mul_scalar(3), &matrix(2, 2, &[3, -6, 9, 12]));
}

#[test]
fn mul_scalar_by_one_changes_nothing() {
    let a = matrix(2, 3, &[1, -2, 3, 4, i64::MAX, i64::MIN]);
    assert_same(&a.mul_scalar(1), &a);
}

#[test]
fn mul_scalar_by_zero_gives_zeros_of_the_same_shape() {
    let a = matrix(2, 3, &[1, -2, 3, 4, i64::MAX, i64::MIN]);
    assert_same(&a.mul_scalar(0), &Matrix::new(2, 3));
}

#[test]
fn hadamard_is_elementwise() {
    let a = matrix(2, 2, &[1, 2, 3, 4]);
    let b = matrix(2, 2, &[10, -20, 30, 0]);
    assert_same(&a.hadamard(&b), &matrix(2, 2, &[10, -40, 90, 0]));
}

#[test]
fn map_applies_the_function_to_every_element() {
    let a = matrix(2, 2, &[1, 2, 3, 4]);
    assert_same(&a.map(|x| x * x + 1), &matrix(2, 2, &[2, 5, 10, 17]));
}

#[test]
fn static_map_applies_the_function_to_every_element() {
    let a = matrix(1, 3, &[1, -2, 3]);
    assert_same(&Matrix::static_map(&a, |x| -x), &matrix(1, 3, &[-1, 2, -3]));
}

#[test]
fn from_array_builds_a_column() {
    let m = Matrix::from_array(&[4i64, 5, 6]);
    assert_same(&m, &matrix(3, 1, &[4, 5, 6]));
    let empty: Matrix<i64> = Matrix::from_array(&[]);
    assert_same(&empty, &matrix(0, 1, &[]));
}

#[test]
fn to_array_flattens_row_major() {
    let m = matrix(2, 3, &[1, 2, 3, 4, 5, 6]);
    assert_eq!(m.to_array(), vec![1, 2, 3, 4, 5, 6]);
}

#[test]
fn a_column_survives_to_array_and_from_array() {
    let m = matrix(4, 1, &[9, 8, 7, 6]);
    assert_same(&Matrix::from_array(&m.to_array()), &m);
}

#[test]
fn random_has_the_shape_and_stays_in_the_unit_range() {
    let m: Matrix<i64> = Matrix::random(5, 7);
    assert_eq!((m.rows, m.cols, m.data.len()), (5, 7, 35));
    assert!(m.data.iter().all(|x| -1 <= *x && *x <= 1));
}

#[test]
fn random_draws_every_value_of_the_unit_range() {
    let m: Matrix<i64> = Matrix::random(40, 50);
    for wanted in [-1i64, 0, 1] {
        assert!(m.data.iter().any(|x| *x == wanted));
    }
}

#[test]
fn randomize_keeps_the_shape_and_redraws_the_elements() {
    let mut m = matrix(20, 30, &[7; 600]);
    m.randomize();
    assert_eq!((m.rows, m.cols, m.data.len()), (20, 30, 600));
    assert!(m.data.iter().all(|x| -1 <= *x && *x <= 1));
    assert!(m.data.iter().any(|x| *x != m.data[0]));
}

#[test]
fn integers_wrap_around() {
    assert_eq!(i64::MAX.plus(1), i64::MIN);
    assert_eq!(i64::MIN.minus(1), i64::MAX);
    assert_eq!(i64::MAX.times(2), -2);
    assert_eq!(6i64.times(7), 42);
    assert_eq!(<i64 as Scalar>::zero(), 0);
    assert_eq!(<i64 as Scalar>::one(), 1);
}

#[test]
fn integers_are_positive_above_zero() {
    assert!(3i64.is_positive());
    assert!(!0i64.is_positive());
    assert!(!(-3i64).is_positive());
}

#[test]
fn integer_samples_lie_in_the_unit_range() {
    for _ in 0..1000 {
        let x = <i64 as Scalar>::sample();
        assert!(-1 <= x && x <= 1);
    }
}
