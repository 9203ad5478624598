use adskalman::{Binary32, Binary64, Matrix, Scalar, Vector};

fn matrix<const M: usize, const N: usize>(rows: [[f64; N]; M]) -> Matrix<Binary64, M, N> {
    Matrix::new(core::array::from_fn(|i| {
        core::array::from_fn(|j| Binary64::from_bits(rows[i][j].to_bits()))
    }))
}

fn rows<const M: usize, const N: usize>(m: &Matrix<Binary64, M, N>) -> [[f64; N]; M] {
    core::array::from_fn(|i| core::array::from_fn(|j| f64::from_bits(m.data[i][j].to_bits())))
}

#[test]
fn new_holds_the_rows() {
    let m = matrix([[1.0, 2.0, 3.0], [4.0, 5.0, 6.0]]);
    assert_eq!(rows(&m), [[1.0, 2.0, 3.0], [4.0, 5.0, 6.0]]);
    assert_eq!(m.data[1][2], Binary64::from_bits(6.0f64.to_bits()));
}

#[test]
fn transpose_turns_rows_into_columns() {
    let m = matrix([[1.0, 2.0, 3.0], [4.0, 5.0, 6.0]]);
    assert_eq!(rows(&m.transpose()), [[1.0, 4.0], [2.0, 5.0], [3.0, 6.0]]);
}

#[test]
fn transpose_of_a_vector_is_a_row() {
    let v: Vector<Binary64, 3> = matrix([[1.0], [2.0], [3.0]]);
    assert_eq!(rows(&v.transpose()), [[1.0, 2.0, 3.0]]);
}

#[test]
fn transpose_twice_is_the_matrix() {
    let m = matrix([[1.0, -2.0], [f64::NAN, 0.5], [f64::INFINITY, -0.0]]);
    assert_eq!(m.transpose().transpose(), m);
}

#[test]
fn transpose_of_a_matrix_without_entries() {
    let none: Matrix<Binary64, 0, 3> = Matrix::new([]);
    assert_eq!(none.transpose(), Matrix::new([[], [], []]));
    let none: Matrix<Binary64, 3, 0> = Matrix::new([[], [], []]);
    assert_eq!(none.transpose(), Matrix::new([]));
}

#[test]
fn identity_has_ones_on_the_diagonal() {
    assert_eq!(
        rows(&Matrix::<Binary64, 3, 3>::identity()),
        [[1.0, 0.0, 0.0], [0.0, 1.0, 0.0], [0.0, 0.0, 1.0]]
    );
    assert_eq!(rows(&Matrix::<Binary64, 1, 1>::identity()), [[1.0]]);
    assert_eq!(Matrix::<Binary64, 0, 0>::identity(), Matrix::new([]));
    let single = Matrix::<Binary32, 2, 2>::identity();
    assert_eq!(single.data[0][0], Binary32::one());
    assert_eq!(single.data[0][1], Binary32::zero());
    assert_eq!(single.data[1][0], Binary32::zero());
    assert_eq!(single.data[1][1], Binary32::one());
}

#[test]
fn any_nan_finds_a_nan_wherever_it_is() {
    assert!(!matrix([[1.0, 2.0], [3.0, 4.0]]).any_nan());
    assert!(matrix([[f64::NAN, 2.0], [3.0, 4.0]]).any_nan());
    assert!(matrix([[1.0, f64::NAN], [3.0, 4.0]]).any_nan());
    assert!(matrix([[1.0, 2.0], [f64::NAN, 4.0]]).any_nan());
    assert!(matrix([[1.0, 2.0], [3.0, f64::NAN]]).any_nan());
    assert!(!matrix([[f64::INFINITY, f64::NEG_INFINITY], [0.0, -0.0]]).any_nan());
}

#[test]
fn any_nan_of_a_matrix_without_entries() {
    assert!(!Matrix::<Binary64, 0, 0>::new([]).any_nan());
    assert!(!Matrix::<Binary64, 2, 0>::new([[], []]).any_nan());
}

#[test]
fn a_copy_is_equal() {
    let m = matrix([[1.0, 2.0], [3.0, 4.0]]);
    let copy = m;
    assert_eq!(m.clone(), copy);
}
