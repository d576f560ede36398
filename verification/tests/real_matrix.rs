use edge_matrix::curve::cubic;
use edge_matrix::{Matrix, Scalar};

/// A double-precision scalar.
#[derive(Clone, Copy, Debug, PartialEq)]
struct Real(f64);

impl Scalar for Real {
    fn zero_value() -> Self {
        Real(0.0)
    }

    fn one_value() -> Self {
        Real(1.0)
    }

    fn sum(self, rhs: Self) -> Self {
        Real(self.0 + rhs.0)
    }

    fn product(self, rhs: Self) -> Self {
        Real(self.0 * rhs.0)
    }

    fn negation(self) -> Self {
        Real(-self.0)
    }

    fn text(self) -> String {
        format!("{:.2}", self.0)
    }

    fn zero() -> Self {
        Real(0.0)
    }

    fn one() -> Self {
        Real(1.0)
    }

    fn plus(self, rhs: Self) -> Self {
        Real(self.0 + rhs.0)
    }

    fn times(self, rhs: Self) -> Self {
        Real(self.0 * rhs.0)
    }

    fn neg(self) -> Self {
        Real(-self.0)
    }

    fn render(&self) -> String {
        format!("{:.2}", self.0)
    }
}

fn reals(values: &[f64]) -> Vec<Real> {
    values.iter().map(|v| Real(*v)).collect()
}

fn floats(values: &[Real]) -> Vec<f64> {
    values.iter().map(|v| v.0).collect()
}

fn matrix(nrows: usize, ncols: usize, values: &[f64]) -> Matrix<Real> {
    Matrix::new(nrows, ncols, reals(values))
}

fn matrix_equal(m1: &Matrix<Real>, m2: &Matrix<Real>) -> bool {
    m1.nrows() == m2.nrows()
        && m1.ncols() == m2.ncols()
        && m1.as_slice().iter().zip(m2.as_slice().iter()).all(|(a, b)| a == b)
}

fn close(m: &Matrix<Real>, want: &[f64], tolerance: f64) -> bool {
    m.as_slice().len() == want.len()
        && m.as_slice().iter().zip(want.iter()).all(|(a, b)| (a.0 - b).abs() <= tolerance)
}

/// A transpose written without the library's views.
fn transpose(m: &Matrix<Real>) -> Matrix<Real> {
    let mut cells = Vec::new();
    for c in 0..m.ncols() {
        for r in 0..m.nrows() {
            cells.push(m.get(r, c).unwrap());
        }
    }
    Matrix::new(m.ncols(), m.nrows(), cells)
}

#[test]
fn print_matrix() {
    let m = matrix(
        7,
        5,
        &[
            1.0, 2.0, 3.0, 4.0, 5.0, 1.0, 2.0, 3.0, 4.0, 5.0, 1.0, 2.0, 3.0, 4.0, 5.0, 1.0, 2.0,
            3.0, 4.0, 5.0, 1.0, 2.0, 3.0, 4.0, 5.0, 1.0, 2.0, 3.0, 4.0, 5.0, 1.0, 2.0, 3.0, 4.0,
            5.0,
        ],
    );
    println!("M: {}", m.to_string());
    println!("M: {:?}", m);
    let mut want = String::from("Matrix (7 by 5) {\n");
    for digit in 1..=5 {
        want.push_str("  ");
        for _ in 0..7 {
            want.push_str(&format!("{}.00 ", digit));
        }
        want.push('\n');
    }
    want.push('}');
    assert_eq!(m.to_string(), want);
}

#[test]
fn add_edge() {
    let mut m = matrix(0, 4, &[]);
    println!("m: {}", m.to_string());
    println!("Adding (1, 2, 4) and (5, 6, 7) to empty matrix",);
    m.append_edge(&reals(&[1.0, 2.0, 4.0, 5.0, 6.0, 7.0]));
    println!("m: {}", m.to_string());
    assert!(
        matrix_equal(&m, &matrix(2, 4, &[1.0, 2.0, 4.0, 1.0, 5.0, 6.0, 7.0, 1.0,])),
        "Matrix not equal"
    );
}

#[test]
fn multiply_with_method() {
    let m1 = matrix(2, 3, &[1.0, 2.0, 3.0, 4.0, 5.0, 6.0]);
    let m2 = matrix(3, 2, &[7.0, 8.0, 9.0, 10.0, 11.0, 12.0]);
    let mp = m1.mul(&m2);
    println!("{} mul by {} = {}", m1.to_string(), m2.to_string(), m1.mul(&m2).to_string());
    assert!(matrix_equal(&mp, &matrix(2, 2, &[58.0, 64.0, 139.0, 154.0,])));
}

#[test]
fn multiple_and_mutate_b() {
    let a = matrix(1, 3, &[3.0, 4.0, 2.0]);
    let mut b = matrix(3, 4, &[13.0, 9.0, 7.0, 15.0, 8.0, 7.0, 4.0, 6.0, 6.0, 4.0, 0.0, 3.0]);
    println!("a: {}", a.to_string());
    println!("b: {}", b.to_string());
    println!("multiplying...",);
    Matrix::mul_mut_b(&a, &mut b);
    println!("b: {}", b.to_string());
    assert!(matrix_equal(&b, &matrix(1, 4, &[83.0, 63.0, 37.0, 75.0])));
}

#[test]
fn test_new_ident() {
    let ident = Matrix::<Real>::ident(3);
    assert!(
        matrix_equal(&ident, &matrix(3, 3, &[1.0, 0.0, 0.0, 0.0, 1.0, 0.0, 0.0, 0.0, 1.0,])),
        "3 x 3 matrix"
    );

    assert!(
        matrix_equal(&Matrix::<Real>::ident(1), &matrix(1, 1, &[1.0])),
        "1 x 1 matrix edge case"
    );
}

#[test]
fn test_inplace_ident() {
    let mut m = Matrix::new(5, 5, vec![Real(120.0); 25]);
    println!("m init: {}", m.to_string());
    println!("Mutating m...",);
    m.to_ident();
    println!("m is now {}", m.to_string());
    assert!(matrix_equal(&m, &Matrix::ident(5)), "5 x 5 matrix");
    let mut m = matrix(1, 1, &[50.0]);
    m.to_ident();
    assert!(matrix_equal(&m, &Matrix::ident(1)), "1 x 1 matrix edge case");
}

#[test]
fn ident_of_size_zero_is_empty() {
    let m = Matrix::<Real>::ident(0);
    assert_eq!((m.nrows(), m.ncols(), m.as_slice().len()), (0, 0, 0));
}

#[test]
fn to_ident_keeps_the_shape_of_a_wide_matrix() {
    let mut m = matrix(2, 3, &[9.0; 6]);
    m.to_ident();
    assert!(matrix_equal(&m, &matrix(2, 3, &[1.0, 0.0, 0.0, 0.0, 1.0, 0.0])));
}

#[test]
fn to_ident_keeps_the_shape_of_a_tall_matrix() {
    let mut m = matrix(3, 2, &[9.0; 6]);
    m.to_ident();
    assert!(matrix_equal(&m, &matrix(3, 2, &[1.0, 0.0, 0.0, 1.0, 0.0, 0.0])));
}

#[test]
fn to_ident_on_a_matrix_without_columns() {
    let mut m = matrix(3, 0, &[]);
    m.to_ident();
    assert_eq!((m.nrows(), m.ncols(), m.as_slice().len()), (3, 0, 0));
}

#[test]
fn new_takes_the_buffer_as_it_is() {
    let m = matrix(2, 3, &[1.0, 2.0, 3.0, 4.0, 5.0, 6.0]);
    assert_eq!(m.nrows(), 2);
    assert_eq!(m.ncols(), 3);
    assert_eq!(floats(m.as_slice()), vec![1.0, 2.0, 3.0, 4.0, 5.0, 6.0]);
}

#[test]
fn new_clone_vec_leaves_the_source_alone() {
    let source = reals(&[1.0, 2.0, 3.0, 4.0]);
    let mut m = Matrix::new_clone_vec(2, 2, &source);
    m.set(0, 0, Real(9.0));
    assert_eq!(floats(&source), vec![1.0, 2.0, 3.0, 4.0]);
    assert_eq!(floats(m.as_slice()), vec![9.0, 2.0, 3.0, 4.0]);
}

#[test]
fn clone_copies_the_buffer() {
    let m = matrix(1, 2, &[1.0, 2.0]);
    let mut copy = m.clone();
    copy.set(0, 1, Real(5.0));
    assert_eq!(floats(m.as_slice()), vec![1.0, 2.0]);
    assert_eq!(floats(copy.as_slice()), vec![1.0, 5.0]);
}

#[test]
fn get_reads_row_major() {
    let m = matrix(2, 3, &[1.0, 2.0, 3.0, 4.0, 5.0, 6.0]);
    assert_eq!(m.get(0, 0), Some(Real(1.0)));
    assert_eq!(m.get(0, 2), Some(Real(3.0)));
    assert_eq!(m.get(1, 0), Some(Real(4.0)));
    assert_eq!(m.get(1, 2), Some(Real(6.0)));
}

#[test]
fn get_one_past_the_end_is_absent() {
    let m = matrix(2, 3, &[1.0, 2.0, 3.0, 4.0, 5.0, 6.0]);
    assert_eq!(m.get(2, 0), None);
    assert_eq!(m.get(0, 3), None);
    assert_eq!(m.get(2, 3), None);
    assert_eq!(m.get(7, 1), None);
    assert_eq!(m.get(1, 7), None);
}

#[test]
fn get_on_an_empty_matrix_is_absent() {
    let m = matrix(0, 4, &[]);
    assert_eq!(m.get(0, 0), None);
}

#[test]
fn set_then_get_round_trips() {
    let mut m = matrix(2, 3, &[1.0, 2.0, 3.0, 4.0, 5.0, 6.0]);
    for r in 0..2 {
        for c in 0..3 {
            let v = Real(10.0 * r as f64 + c as f64 + 0.5);
            m.set(r, c, v);
            assert_eq!(m.get(r, c), Some(v));
        }
    }
    assert_eq!(floats(m.as_slice()), vec![0.5, 1.5, 2.5, 10.5, 11.5, 12.5]);
}

#[test]
fn set_leaves_the_other_cells() {
    let mut m = matrix(2, 2, &[1.0, 2.0, 3.0, 4.0]);
    m.set(1, 0, Real(9.0));
    assert_eq!(floats(m.as_slice()), vec![1.0, 2.0, 9.0, 4.0]);
}

#[test]
fn row_iter_gives_the_cells_of_a_row() {
    let m = matrix(2, 3, &[1.0, 2.0, 3.0, 4.0, 5.0, 6.0]);
    assert_eq!(floats(m.row_iter(0)), vec![1.0, 2.0, 3.0]);
    assert_eq!(floats(m.row_iter(1)), vec![4.0, 5.0, 6.0]);
    assert_eq!(floats(m.row_iter(1)), vec![4.0, 5.0, 6.0]);
}

#[test]
fn row_iter_without_columns_is_empty() {
    let m = matrix(3, 0, &[]);
    assert!(m.row_iter(2).is_empty());
    assert!(m.row_iter(5).is_empty());
}

#[test]
fn col_iter_gives_the_cells_of_a_column() {
    let m = matrix(2, 3, &[1.0, 2.0, 3.0, 4.0, 5.0, 6.0]);
    assert_eq!(floats(&m.col_iter(0)), vec![1.0, 4.0]);
    assert_eq!(floats(&m.col_iter(1)), vec![2.0, 5.0]);
    assert_eq!(floats(&m.col_iter(2)), vec![3.0, 6.0]);
}

#[test]
fn col_iter_past_the_last_column_strides_on() {
    let m = matrix(2, 3, &[1.0, 2.0, 3.0, 4.0, 5.0, 6.0]);
    assert_eq!(floats(&m.col_iter(3)), vec![4.0]);
    assert_eq!(floats(&m.col_iter(4)), vec![5.0]);
    assert_eq!(floats(&m.col_iter(6)), Vec::<f64>::new());
    assert_eq!(floats(&m.col_iter(100)), Vec::<f64>::new());
}

#[test]
fn col_iter_on_a_matrix_without_rows_is_empty() {
    let m = matrix(0, 4, &[]);
    assert!(m.col_iter(0).is_empty());
}

#[test]
fn iter_by_row_gives_every_row_in_order() {
    let m = matrix(3, 2, &[1.0, 2.0, 3.0, 4.0, 5.0, 6.0]);
    let rows: Vec<Vec<f64>> = m.iter_by_row().into_iter().map(floats).collect();
    assert_eq!(rows, vec![vec![1.0, 2.0], vec![3.0, 4.0], vec![5.0, 6.0]]);
}

#[test]
fn iter_by_row_without_rows_is_empty() {
    let m = matrix(0, 4, &[]);
    assert!(m.iter_by_row().is_empty());
}

#[test]
fn append_row_grows_by_one_row_and_drains_the_source() {
    let mut m = matrix(1, 2, &[1.0, 2.0]);
    let mut row = reals(&[3.0, 4.0]);
    m.append_row(&mut row);
    assert!(row.is_empty());
    assert!(matrix_equal(&m, &matrix(2, 2, &[1.0, 2.0, 3.0, 4.0])));
}

#[test]
fn append_row_to_a_matrix_without_columns() {
    let mut m = matrix(2, 0, &[]);
    m.append_row(&mut Vec::new());
    assert_eq!((m.nrows(), m.ncols(), m.as_slice().len()), (3, 0, 0));
}

#[test]
fn append_edge_adds_two_rows_and_keeps_the_rest() {
    let mut m = matrix(1, 4, &[9.0, 8.0, 7.0, 1.0]);
    m.append_edge(&reals(&[1.0, 2.0, 3.0, 4.0, 5.0, 6.0]));
    assert_eq!(m.nrows(), 3);
    assert_eq!(floats(m.row_iter(0)), vec![9.0, 8.0, 7.0, 1.0]);
    assert_eq!(floats(m.row_iter(1)), vec![1.0, 2.0, 3.0, 1.0]);
    assert_eq!(floats(m.row_iter(2)), vec![4.0, 5.0, 6.0, 1.0]);
    m.append_edge(&reals(&[0.0, 0.0, 0.0, 0.5, 0.5, 0.5]));
    assert_eq!(m.nrows(), 5);
    assert_eq!(floats(m.row_iter(0)), vec![9.0, 8.0, 7.0, 1.0]);
    assert_eq!(floats(m.row_iter(2)), vec![4.0, 5.0, 6.0, 1.0]);
    assert_eq!(floats(m.row_iter(4)), vec![0.5, 0.5, 0.5, 1.0]);
}

#[test]
fn product_has_the_rows_of_the_left_and_the_columns_of_the_right() {
    let a = matrix(3, 2, &[1.0; 6]);
    let b = matrix(2, 5, &[1.0; 10]);
    let p = a.mul(&b);
    assert_eq!((p.nrows(), p.ncols()), (3, 5));
    assert_eq!(floats(p.as_slice()), vec![2.0; 15]);
}

#[test]
fn product_over_an_empty_inner_dimension_is_zero() {
    let a = matrix(2, 0, &[]);
    let b = matrix(0, 3, &[]);
    let p = a.mul(&b);
    assert!(matrix_equal(&p, &matrix(2, 3, &[0.0; 6])));
}

#[test]
fn product_is_not_commutative() {
    let a = matrix(2, 2, &[1.0, 2.0, 3.0, 4.0]);
    let b = matrix(2, 2, &[5.0, 6.0, 7.0, 8.0]);
    assert_eq!(floats(a.mul(&b).as_slice()), vec![19.0, 22.0, 43.0, 50.0]);
    assert_eq!(floats(b.mul(&a).as_slice()), vec![23.0, 34.0, 31.0, 46.0]);
}

#[test]
fn mul_mut_b_puts_the_transform_on_the_left() {
    let a = matrix(2, 2, &[1.0, 2.0, 3.0, 4.0]);
    let mut b = matrix(2, 2, &[5.0, 6.0, 7.0, 8.0]);
    Matrix::mul_mut_b(&a, &mut b);
    assert!(matrix_equal(&b, &matrix(2, 2, &[19.0, 22.0, 43.0, 50.0])));
    assert_eq!(floats(a.as_slice()), vec![1.0, 2.0, 3.0, 4.0]);
}

#[test]
fn identity_is_neutral_for_the_product() {
    let m = matrix(2, 3, &[1.5, -2.0, 3.25, 4.0, 0.0, -6.5]);
    assert!(matrix_equal(&Matrix::ident(2).mul(&m), &m));
    assert!(matrix_equal(&m.mul(&Matrix::ident(3)), &m));
}

#[test]
fn product_does_not_treat_infinity_specially() {
    let m = matrix(2, 1, &[f64::INFINITY, 1.0]);
    let p = Matrix::ident(2).mul(&m);
    assert_eq!(p.get(0, 0), Some(Real(f64::INFINITY)));
    assert!(p.get(1, 0).unwrap().0.is_nan());
}

#[test]
fn transposed_mul_of_square_matrices() {
    let a = matrix(2, 2, &[1.0, 2.0, 3.0, 4.0]);
    let b = matrix(2, 2, &[5.0, 6.0, 7.0, 8.0]);
    let p = a.transposed_mul(&b);
    assert!(matrix_equal(&p, &matrix(2, 2, &[23.0, 34.0, 31.0, 46.0])));
}

#[test]
fn transposed_mul_has_the_rows_of_the_right_and_the_columns_of_the_left() {
    let a = matrix(1, 2, &[1.0, 2.0]);
    let b = matrix(2, 1, &[3.0, 4.0]);
    let p = a.transposed_mul(&b);
    assert!(matrix_equal(&p, &matrix(2, 2, &[3.0, 6.0, 4.0, 8.0])));
    let a = matrix(2, 3, &[1.0, 2.0, 3.0, 4.0, 5.0, 6.0]);
    let b = matrix(1, 2, &[1.0, 10.0]);
    let p = a.transposed_mul(&b);
    assert!(matrix_equal(&p, &matrix(1, 3, &[41.0, 52.0, 63.0])));
}

#[test]
fn transposed_mul_and_the_product_of_the_transposes_differ_by_a_transpose() {
    let a = matrix(1, 2, &[1.0, 2.0]);
    let b = matrix(2, 1, &[3.0, 4.0]);
    let direct = a.transposed_mul(&b);
    let by_transposes = transpose(&a).mul(&transpose(&b));
    assert!(matrix_equal(&direct, &matrix(2, 2, &[3.0, 6.0, 4.0, 8.0])));
    assert!(matrix_equal(&by_transposes, &matrix(2, 2, &[3.0, 4.0, 6.0, 8.0])));
    assert!(matrix_equal(&direct, &transpose(&by_transposes)));
}

#[test]
fn transposed_mul_is_the_transpose_of_the_product_of_the_transposes() {
    let pairs = [
        (matrix(2, 2, &[1.0, 2.0, 3.0, 4.0]), matrix(2, 2, &[5.0, 6.0, 7.0, 8.0])),
        (matrix(1, 2, &[1.0, 2.0]), matrix(2, 1, &[3.0, 4.0])),
        (matrix(2, 3, &[1.0, 2.0, 3.0, 4.0, 5.0, 6.0]), matrix(4, 2, &[1.0, 0.5, 2.0, 4.0, -1.0, 3.0, 0.0, 7.0])),
        (matrix(3, 1, &[2.0, -1.0, 0.5]), matrix(2, 3, &[1.0, 2.0, 3.0, 4.0, 5.0, 6.0])),
    ];
    for (a, b) in pairs.iter() {
        let direct = a.transposed_mul(b);
        let by_transposes = transpose(&transpose(a).mul(&transpose(b)));
        assert!(matrix_equal(&direct, &by_transposes));
    }
}

#[test]
fn transposed_mul_equals_the_product_of_the_transposes_where_that_is_symmetric() {
    let a = matrix(2, 2, &[1.0, 2.0, 3.0, 4.0]);
    let b = transpose(&a);
    let direct = a.transposed_mul(&b);
    let by_transposes = transpose(&a).mul(&transpose(&b));
    assert!(matrix_equal(&direct, &by_transposes));
    assert!(matrix_equal(&direct, &matrix(2, 2, &[10.0, 14.0, 14.0, 20.0])));
    let one = matrix(1, 1, &[3.0]);
    let other = matrix(1, 1, &[-2.0]);
    assert!(matrix_equal(&one.transposed_mul(&other), &transpose(&one).mul(&transpose(&other))));
}

#[test]
fn mv_puts_the_offsets_into_the_last_row() {
    let m = Matrix::mv(Real(2.0), Real(3.0), Real(4.0));
    assert!(matrix_equal(
        &m,
        &matrix(
            4,
            4,
            &[1.0, 0.0, 0.0, 0.0, 0.0, 1.0, 0.0, 0.0, 0.0, 0.0, 1.0, 0.0, 2.0, 3.0, 4.0, 1.0]
        )
    ));
}

#[test]
fn mv_moves_a_point_row() {
    let point = matrix(1, 4, &[1.0, 1.0, 1.0, 1.0]);
    let moved = point.mul(&Matrix::mv(Real(2.0), Real(3.0), Real(4.0)));
    assert!(matrix_equal(&moved, &matrix(1, 4, &[3.0, 4.0, 5.0, 1.0])));
}

#[test]
fn scale_puts_the_factors_on_the_diagonal() {
    let m = Matrix::scale(Real(2.0), Real(3.0), Real(4.0));
    assert!(matrix_equal(
        &m,
        &matrix(
            4,
            4,
            &[2.0, 0.0, 0.0, 0.0, 0.0, 3.0, 0.0, 0.0, 0.0, 0.0, 4.0, 0.0, 0.0, 0.0, 0.0, 1.0]
        )
    ));
}

#[test]
fn rotatex_places_cosine_and_sine() {
    let m = Matrix::rotatex(Real(0.5), Real(0.25));
    assert!(matrix_equal(
        &m,
        &matrix(
            4,
            4,
            &[1.0, 0.0, 0.0, 0.0, 0.0, 0.5, -0.25, 0.0, 0.0, 0.25, 0.5, 0.0, 0.0, 0.0, 0.0, 1.0]
        )
    ));
}

#[test]
fn rotatey_places_cosine_and_sine() {
    let m = Matrix::rotatey(Real(0.5), Real(0.25));
    assert!(matrix_equal(
        &m,
        &matrix(
            4,
            4,
            &[0.5, 0.0, 0.25, 0.0, 0.0, 1.0, 0.0, 0.0, -0.25, 0.0, 0.5, 0.0, 0.0, 0.0, 0.0, 1.0]
        )
    ));
}

#[test]
fn rotatez_places_cosine_and_sine() {
    let m = Matrix::rotatez(Real(0.5), Real(0.25));
    assert!(matrix_equal(
        &m,
        &matrix(
            4,
            4,
            &[0.5, -0.25, 0.0, 0.0, 0.25, 0.5, 0.0, 0.0, 0.0, 0.0, 1.0, 0.0, 0.0, 0.0, 0.0, 1.0]
        )
    ));
}

#[test]
fn rotatez_by_a_quarter_turn() {
    let angle = 90.0f64.to_radians();
    let rotation = Matrix::rotatez(Real(angle.cos()), Real(angle.sin()));
    let mut point = matrix(4, 1, &[1.0, 0.0, 0.0, 1.0]);
    Matrix::mul_mut_b(&rotation, &mut point);
    assert!(close(&point, &[0.0, 1.0, 0.0, 1.0], 1e-9));
    let row = matrix(1, 4, &[1.0, 0.0, 0.0, 1.0]).mul(&rotation);
    assert!(close(&row, &[0.0, -1.0, 0.0, 1.0], 1e-9));
}

#[test]
fn rotatex_and_rotatey_by_a_quarter_turn() {
    let angle = 90.0f64.to_radians();
    let mut point = matrix(4, 1, &[0.0, 1.0, 0.0, 1.0]);
    Matrix::mul_mut_b(&Matrix::rotatex(Real(angle.cos()), Real(angle.sin())), &mut point);
    assert!(close(&point, &[0.0, 0.0, 1.0, 1.0], 1e-9));
    let mut point = matrix(4, 1, &[0.0, 0.0, 1.0, 1.0]);
    Matrix::mul_mut_b(&Matrix::rotatey(Real(angle.cos()), Real(angle.sin())), &mut point);
    assert!(close(&point, &[1.0, 0.0, 0.0, 1.0], 1e-9));
}

#[test]
fn add_parametric_joins_neighbouring_samples() {
    let mut m = matrix(0, 4, &[]);
    let samples = vec![(Real(0.0), Real(0.0)), (Real(1.0), Real(0.0)), (Real(1.0), Real(1.0))];
    m.add_parametric(&samples, Real(2.0));
    assert!(matrix_equal(
        &m,
        &matrix(
            4,
            4,
            &[0.0, 0.0, 2.0, 1.0, 1.0, 0.0, 2.0, 1.0, 1.0, 0.0, 2.0, 1.0, 1.0, 1.0, 2.0, 1.0]
        )
    ));
}

#[test]
fn add_parametric_adds_two_rows_for_each_pair() {
    for n in 0..7usize {
        let mut m = matrix(1, 4, &[9.0, 9.0, 9.0, 1.0]);
        let samples: Vec<(Real, Real)> = (0..n).map(|i| (Real(i as f64), Real(0.5))).collect();
        m.add_parametric(&samples, Real(0.0));
        let want = if n > 1 { 1 + 2 * (n - 1) } else { 1 };
        assert_eq!(m.nrows(), want);
        assert_eq!(m.as_slice().len(), 4 * want);
        assert_eq!(floats(m.row_iter(0)), vec![9.0, 9.0, 9.0, 1.0]);
    }
}

#[test]
fn add_parametric_of_one_sample_leaves_any_matrix_alone() {
    let mut m = matrix(1, 2, &[3.0, 4.0]);
    m.add_parametric(&vec![(Real(1.0), Real(2.0))], Real(0.0));
    assert!(matrix_equal(&m, &matrix(1, 2, &[3.0, 4.0])));
    m.add_parametric(&Vec::new(), Real(0.0));
    assert!(matrix_equal(&m, &matrix(1, 2, &[3.0, 4.0])));
}

#[test]
fn add_circle_scales_and_moves_the_unit_circle() {
    let mut m = matrix(0, 4, &[]);
    let unit = vec![(Real(1.0), Real(0.0)), (Real(0.0), Real(1.0)), (Real(-1.0), Real(0.0))];
    m.add_circle((Real(10.0), Real(20.0), Real(5.0)), Real(2.0), &unit);
    assert!(matrix_equal(
        &m,
        &matrix(
            4,
            4,
            &[
                12.0, 20.0, 5.0, 1.0, 10.0, 22.0, 5.0, 1.0, 10.0, 22.0, 5.0, 1.0, 8.0, 20.0, 5.0,
                1.0
            ]
        )
    ));
}

#[test]
fn add_circle_through_one_point_adds_nothing() {
    let mut m = matrix(1, 4, &[1.0, 2.0, 3.0, 1.0]);
    m.add_circle((Real(0.0), Real(0.0), Real(0.0)), Real(1.0), &vec![(Real(1.0), Real(0.0))]);
    assert!(matrix_equal(&m, &matrix(1, 4, &[1.0, 2.0, 3.0, 1.0])));
}

#[test]
fn add_cubic_draws_through_the_points_at_the_parameters() {
    let mut m = matrix(0, 4, &[]);
    let xs = (Real(1.0), Real(2.0), Real(3.0), Real(4.0));
    let ys = (Real(0.0), Real(0.0), Real(1.0), Real(0.0));
    m.add_cubic(xs, ys, &reals(&[0.0, 1.0, 2.0]));
    assert!(matrix_equal(
        &m,
        &matrix(
            4,
            4,
            &[4.0, 0.0, 0.0, 1.0, 10.0, 1.0, 0.0, 1.0, 10.0, 1.0, 0.0, 1.0, 26.0, 2.0, 0.0, 1.0]
        )
    ));
}

#[test]
fn add_cubic_keeps_what_was_there() {
    let mut m = matrix(1, 4, &[7.0, 7.0, 7.0, 1.0]);
    let line = (Real(0.0), Real(0.0), Real(1.0), Real(0.0));
    m.add_cubic(line, line, &reals(&[0.0, 0.5, 1.0]));
    assert_eq!(m.nrows(), 5);
    assert_eq!(floats(m.row_iter(0)), vec![7.0, 7.0, 7.0, 1.0]);
    assert_eq!(floats(m.row_iter(2)), vec![0.5, 0.5, 0.0, 1.0]);
    assert_eq!(floats(m.row_iter(4)), vec![1.0, 1.0, 0.0, 1.0]);
}

#[test]
fn cubic_evaluates_the_polynomial() {
    let v = cubic(Real(1.0), Real(2.0), Real(3.0), Real(4.0), Real(2.0));
    assert_eq!(v, Real(26.0));
    let v = cubic(Real(1.0), Real(2.0), Real(3.0), Real(4.0), Real(0.0));
    assert_eq!(v, Real(4.0));
    let v = cubic(Real(-1.0), Real(0.5), Real(0.0), Real(1.0), Real(0.5));
    assert_eq!(v, Real(1.0));
}

#[test]
fn to_string_of_an_empty_matrix() {
    assert_eq!(matrix(0, 4, &[]).to_string(), "Empty matrix (0 by 4)");
    assert_eq!(matrix(3, 0, &[]).to_string(), "Empty matrix (3 by 0)");
    assert_eq!(matrix(0, 0, &[]).to_string(), "Empty matrix (0 by 0)");
}

#[test]
fn to_string_writes_one_line_for_each_column() {
    let m = matrix(2, 3, &[1.0, 2.0, 3.0, 4.0, 5.0, 6.0]);
    assert_eq!(m.to_string(), "Matrix (2 by 3) {\n  1.00 4.00 \n  2.00 5.00 \n  3.00 6.00 \n}");
}

#[test]
fn to_string_rounds_to_two_places() {
    let m = matrix(1, 2, &[-0.125, 12.3456]);
    assert_eq!(m.to_string(), "Matrix (1 by 2) {\n  -0.12 \n  12.35 \n}");
}

#[test]
fn to_string_writes_dimensions_of_several_digits() {
    let m = matrix(12, 1, &[0.0; 12]);
    let mut want = String::from("Matrix (12 by 1) {\n  ");
    for _ in 0..12 {
        want.push_str("0.00 ");
    }
    want.push_str("\n}");
    assert_eq!(m.to_string(), want);
}
