use linalgae_rs::text::render_cells;
use linalgae_rs::{LiteralError, Matrix};
use std::cell::Cell;

fn grid(rows: usize, cols: usize, data: &[i64]) -> Matrix<i64> {
    Matrix::new(rows, cols, data.to_vec()).unwrap()
}

// -------- Construction --------

#[test]
fn new_keeps_shape_and_cells() {
    let data = vec![3i32, -1, 4, 1, -5, 9];
    let m = Matrix::new(3, 2, data.clone()).unwrap();
    assert_eq!(m.rows(), 3);
    assert_eq!(m.cols(), 2);
    assert_eq!(m.as_slice(), &data[..]);
}

#[test]
fn new_reports_each_bad_dimension() {
    assert_eq!(Matrix::new(0, 2, vec![1i32, 2]).unwrap_err(), "Row dim should be positive!");
    assert_eq!(Matrix::new(2, 0, vec![1i32, 2]).unwrap_err(), "Col dim should be positive!");
    assert_eq!(Matrix::new(0, 0, Vec::<i32>::new()).unwrap_err(), "Row dim should be positive!");
    assert_eq!(
        Matrix::new(2, 2, vec![1i32, 2, 3]).unwrap_err(),
        "Input vector does not match dimensions!"
    );
    assert_eq!(
        Matrix::new(2, 2, vec![1i32, 2, 3, 4, 5]).unwrap_err(),
        "Input vector does not match dimensions!"
    );
}

#[test]
fn new_rejects_dimensions_whose_product_overflows() {
    let r = Matrix::new(usize::MAX, 2, vec![1u32, 2]);
    assert_eq!(r.unwrap_err(), "Input vector does not match dimensions!");
}

#[test]
fn full_zeroes_ones_report_zero_dimensions() {
    assert_eq!(Matrix::full(0, 3, 7i32).unwrap_err(), "Row dim should be positive!");
    assert_eq!(Matrix::full(3, 0, 7i32).unwrap_err(), "Col dim should be positive!");
    assert_eq!(Matrix::<i32>::zeroes(0, 3).unwrap_err(), "Row dim should be positive!");
    assert_eq!(Matrix::<i32>::zeroes(3, 0).unwrap_err(), "Col dim should be positive!");
    assert_eq!(Matrix::<i64>::ones(0, 3).unwrap_err(), "Row dim should be positive!");
    assert_eq!(Matrix::<i64>::ones(3, 0).unwrap_err(), "Col dim should be positive!");
}

#[test]
fn full_fills_every_cell() {
    let m = Matrix::full(2, 3, -4i64).unwrap();
    assert_eq!(m.rows(), 2);
    assert_eq!(m.cols(), 3);
    assert_eq!(m.as_slice(), &[-4, -4, -4, -4, -4, -4]);
}

#[test]
fn zero_of_each_element_type() {
    assert_eq!(Matrix::<i8>::zeroes(1, 2).unwrap().as_slice(), &[0i8, 0]);
    assert_eq!(Matrix::<i16>::zeroes(1, 2).unwrap().as_slice(), &[0i16, 0]);
    assert_eq!(Matrix::<i32>::zeroes(1, 2).unwrap().as_slice(), &[0i32, 0]);
    assert_eq!(Matrix::<i64>::zeroes(1, 2).unwrap().as_slice(), &[0i64, 0]);
    assert_eq!(Matrix::<i128>::zeroes(1, 2).unwrap().as_slice(), &[0i128, 0]);
    assert_eq!(Matrix::<isize>::zeroes(1, 2).unwrap().as_slice(), &[0isize, 0]);
    assert_eq!(Matrix::<u8>::zeroes(1, 2).unwrap().as_slice(), &[0u8, 0]);
    assert_eq!(Matrix::<u16>::zeroes(1, 2).unwrap().as_slice(), &[0u16, 0]);
    assert_eq!(Matrix::<u32>::zeroes(1, 2).unwrap().as_slice(), &[0u32, 0]);
    assert_eq!(Matrix::<u64>::zeroes(1, 2).unwrap().as_slice(), &[0u64, 0]);
    assert_eq!(Matrix::<u128>::zeroes(1, 2).unwrap().as_slice(), &[0u128, 0]);
    assert_eq!(Matrix::<usize>::zeroes(1, 2).unwrap().as_slice(), &[0usize, 0]);
}

#[test]
fn one_of_each_element_type() {
    assert_eq!(Matrix::<i8>::ones(2, 1).unwrap().as_slice(), &[1i8, 1]);
    assert_eq!(Matrix::<i16>::ones(2, 1).unwrap().as_slice(), &[1i16, 1]);
    assert_eq!(Matrix::<i32>::ones(2, 1).unwrap().as_slice(), &[1i32, 1]);
    assert_eq!(Matrix::<i64>::ones(2, 1).unwrap().as_slice(), &[1i64, 1]);
    assert_eq!(Matrix::<i128>::ones(2, 1).unwrap().as_slice(), &[1i128, 1]);
    assert_eq!(Matrix::<isize>::ones(2, 1).unwrap().as_slice(), &[1isize, 1]);
    assert_eq!(Matrix::<u8>::ones(2, 1).unwrap().as_slice(), &[1u8, 1]);
    assert_eq!(Matrix::<u16>::ones(2, 1).unwrap().as_slice(), &[1u16, 1]);
    assert_eq!(Matrix::<u32>::ones(2, 1).unwrap().as_slice(), &[1u32, 1]);
    assert_eq!(Matrix::<u64>::ones(2, 1).unwrap().as_slice(), &[1u64, 1]);
    assert_eq!(Matrix::<u128>::ones(2, 1).unwrap().as_slice(), &[1u128, 1]);
    assert_eq!(Matrix::<usize>::ones(2, 1).unwrap().as_slice(), &[1usize, 1]);
}

#[test]
fn arithmetic_of_the_narrow_and_the_wide_element_types() {
    let a = Matrix::new(1, 3, vec![100i8, -100, 7]).unwrap();
    let b = Matrix::new(1, 3, vec![27i8, -28, -7]).unwrap();
    assert_eq!((&a + &b).as_slice(), &[127, -128, 0]);
    assert_eq!((&a / 3).as_slice(), &[33, -33, 2]);

    let c = Matrix::new(2, 1, vec![200u8, 55]).unwrap();
    assert_eq!(c.sum(), 255);
    assert_eq!((&c - &c).as_slice(), &[0, 0]);

    let big = Matrix::new(1, 2, vec![i128::MAX, i128::MIN]).unwrap();
    assert_eq!(big.sum(), -1);
    let wide = Matrix::new(1, 2, vec![u128::MAX / 2, 1]).unwrap();
    assert_eq!((&wide * 2).as_slice(), &[u128::MAX - 1, 2]);

    let idx = Matrix::new(2, 2, vec![1usize, 2, 3, 4]).unwrap();
    assert_eq!(idx.matmul(&idx).as_slice(), &[7, 10, 15, 22]);
    let off = Matrix::new(2, 2, vec![1isize, -2, 3, -4]).unwrap();
    assert_eq!(off.component_mul(&off).as_slice(), &[1, 4, 9, 16]);
    assert_eq!((2u16 * &Matrix::new(1, 1, vec![21u16]).unwrap()).as_slice(), &[42]);
    assert_eq!((-2i16 * &Matrix::new(1, 1, vec![21i16]).unwrap()).as_slice(), &[-42]);
}

#[test]
fn identity_is_one_on_the_diagonal_only() {
    let id = Matrix::<u64>::identity(4).unwrap();
    assert_eq!(id.rows(), 4);
    assert_eq!(id.cols(), 4);
    for r in 0..4 {
        for c in 0..4 {
            assert_eq!(id.as_slice()[r * 4 + c], if r == c { 1 } else { 0 });
        }
    }
    assert_eq!(Matrix::<u64>::identity(0).unwrap_err(), "Dimension should be positive!");
}

#[test]
fn rand_init_asks_the_sampler_once_per_cell_in_order() {
    let next = Cell::new(0i32);
    let m = Matrix::rand_init(2, 3, || {
        let v = next.get();
        next.set(v + 1);
        v
    });
    assert_eq!(m.rows(), 2);
    assert_eq!(m.cols(), 3);
    assert_eq!(m.as_slice(), &[0, 1, 2, 3, 4, 5]);
    assert_eq!(next.get(), 6);
}

#[test]
fn same_shape_compares_both_dimensions() {
    let a = grid(2, 3, &[0; 6]);
    assert!(a.same_shape(&grid(2, 3, &[1; 6])));
    assert!(!a.same_shape(&grid(3, 2, &[0; 6])));
    assert!(!a.same_shape(&grid(2, 2, &[0; 4])));
    assert!(!a.same_shape(&grid(1, 3, &[0; 3])));
}

#[test]
fn clone_has_its_own_buffer() {
    let a = grid(2, 2, &[1, 2, 3, 4]);
    let mut b = a.clone();
    assert_eq!(a, b);
    b.as_mut_slice()[0] = 9;
    assert_eq!(a.as_slice(), &[1, 2, 3, 4]);
    assert_eq!(b.as_slice(), &[9, 2, 3, 4]);
    assert_eq!(b.rows(), 2);
    assert_eq!(b.cols(), 2);
}

// -------- Rows written out --------

#[test]
fn from_rows_flattens_row_by_row() {
    let m = Matrix::from_rows(vec![vec![1, 2, 3], vec![4, 5, 6]]).unwrap();
    assert_eq!(m.rows(), 2);
    assert_eq!(m.cols(), 3);
    assert_eq!(m.as_slice(), &[1, 2, 3, 4, 5, 6]);
}

#[test]
fn from_rows_reports_the_first_uneven_row() {
    let r = Matrix::from_rows(vec![vec![1, 2], vec![3, 4, 5]]);
    let e = r.unwrap_err();
    assert_eq!(e, LiteralError::Ragged { row: 2, found: 3, expected: 2 });
    assert_eq!(e.message(), "Row 2 has 3 cols, expected 2");

    let r = Matrix::from_rows(vec![vec![1, 2, 3], vec![4, 5, 6], vec![7], vec![8, 9]]);
    let e = r.unwrap_err();
    assert_eq!(e, LiteralError::Ragged { row: 3, found: 1, expected: 3 });
    assert_eq!(e.message(), "Row 3 has 1 cols, expected 3");
}

#[test]
fn from_rows_reports_uneven_rows_before_missing_columns() {
    let r = Matrix::from_rows(vec![vec![], vec![1, 2]]);
    assert_eq!(r.unwrap_err(), LiteralError::Ragged { row: 2, found: 2, expected: 0 });
}

#[test]
fn from_rows_reports_missing_rows_and_columns() {
    let none: Vec<Vec<i32>> = Vec::new();
    let e = Matrix::from_rows(none).unwrap_err();
    assert_eq!(e, LiteralError::Dimension("Row dim should be positive!"));
    assert_eq!(e.message(), "Row dim should be positive!");

    let empty: Vec<Vec<i32>> = vec![vec![], vec![]];
    let e = Matrix::from_rows(empty).unwrap_err();
    assert_eq!(e, LiteralError::Dimension("Col dim should be positive!"));
    assert_eq!(e.message(), "Col dim should be positive!");
}

#[test]
fn message_writes_numbers_of_several_digits() {
    let e = LiteralError::Ragged { row: 12, found: 1050, expected: 907 };
    assert_eq!(e.message(), "Row 12 has 1050 cols, expected 907");
    let e = LiteralError::Ragged { row: 10, found: 0, expected: 100 };
    assert_eq!(e.message(), "Row 10 has 0 cols, expected 100");
}

// -------- Transpose --------

#[test]
fn transpose_moves_cell_r_c_to_c_r() {
    let m = grid(2, 3, &[1, 2, 3, 4, 5, 6]);
    let t = m.t();
    assert_eq!(t.rows(), 3);
    assert_eq!(t.cols(), 2);
    assert_eq!(t.as_slice(), &[1, 4, 2, 5, 3, 6]);
}

#[test]
fn transpose_twice_is_the_original() {
    let m = grid(3, 4, &[1, 2, 3, 4, 5, 6, 7, 8, 9, 10, 11, 12]);
    let back = m.t().t();
    assert_eq!(back, m);

    let f = Matrix::new(2, 3, vec![1.5f64, -2.0, 0.25, 8.0, 1e300, -0.0]).unwrap();
    let back = f.t().t();
    assert_eq!(back.rows(), 2);
    assert_eq!(back.cols(), 3);
    assert_eq!(back.as_slice(), f.as_slice());
}

#[test]
fn transpose_of_a_row_is_a_column() {
    let row = grid(1, 4, &[1, 2, 3, 4]);
    let col = row.t();
    assert_eq!((col.rows(), col.cols()), (4, 1));
    assert_eq!(col.as_slice(), &[1, 2, 3, 4]);
    let again = col.t();
    assert_eq!((again.rows(), again.cols()), (1, 4));
}

// -------- Cellwise and scalar arithmetic --------

#[test]
fn add_and_subtract_cell_by_cell() {
    let a = grid(2, 2, &[1, -2, 3, -4]);
    let b = grid(2, 2, &[10, 20, -30, -40]);
    assert_eq!((&a + &b).as_slice(), &[11, 18, -27, -44]);
    assert_eq!((&a - &b).as_slice(), &[-9, -22, 33, 36]);
    assert_eq!((&a + &b).rows(), 2);
    assert_eq!((&a - &b).cols(), 2);
}

#[test]
fn adding_zero_changes_nothing_and_subtracting_self_gives_zero() {
    let m = grid(2, 3, &[5, -6, 7, -8, 9, 0]);
    let zero = Matrix::<i64>::zeroes(2, 3).unwrap();
    assert_eq!(&m + &zero, m);
    assert_eq!(&m - &m, zero);
}

#[test]
fn scaling_by_one_zero_and_back() {
    let m = grid(2, 2, &[7, -3, 0, 12]);
    assert_eq!(&m * 1, m);
    assert_eq!(&m * 0, Matrix::<i64>::zeroes(2, 2).unwrap());
    for k in [1i64, 2, -5, 1000] {
        let scaled = &m * k;
        assert_eq!(&scaled / k, m);
    }
    assert_eq!((&m * -2).as_slice(), &[-14, 6, 0, -24]);
}

#[test]
fn scalar_on_the_left_is_scalar_on_the_right() {
    let a = Matrix::new(1, 3, vec![1i32, -2, 3]).unwrap();
    assert_eq!(3 * &a, &a * 3);
    assert_eq!((3 * &a).as_slice(), &[3, -6, 9]);
    let b = Matrix::new(1, 2, vec![4i64, 5]).unwrap();
    assert_eq!((-2 * &b).as_slice(), &[-8, -10]);
    let c = Matrix::new(1, 2, vec![4u32, 5]).unwrap();
    assert_eq!((2 * &c).as_slice(), &[8, 10]);
    let d = Matrix::new(2, 1, vec![4u64, 5]).unwrap();
    assert_eq!((7 * &d).as_slice(), &[28, 35]);
}

#[test]
fn division_rounds_toward_zero() {
    let m = grid(1, 6, &[7, -7, 1, -1, 0, 9]);
    assert_eq!((&m / 2).as_slice(), &[3, -3, 0, 0, 0, 4]);
    assert_eq!((&m / -2).as_slice(), &[-3, 3, 0, 0, 0, -4]);
    let u = Matrix::new(1, 3, vec![7u32, 8, 9]).unwrap();
    assert_eq!((&u / 4).as_slice(), &[1, 2, 2]);
}

#[test]
fn in_place_sum_and_difference_hand_the_matrix_back() {
    let mut a = grid(1, 3, &[1, 2, 3]);
    let b = grid(1, 3, &[10, 20, 30]);
    a.add_assign(&b).add_assign(&b);
    assert_eq!(a.as_slice(), &[21, 42, 63]);
    a.sub_assign(&b).sub_assign(&b).sub_assign(&b);
    assert_eq!(a.as_slice(), &[-9, -18, -27]);
    assert_eq!((a.rows(), a.cols()), (1, 3));
}

#[test]
fn sub_assign_scaled_is_minus_the_scaled_matrix() {
    let a = grid(2, 2, &[100, 200, 300, 400]);
    let b = grid(2, 2, &[1, -2, 3, -4]);
    for k in [0i64, 1, -1, 7, -13] {
        let mut fused = a.clone();
        fused.sub_assign_scaled(&b, k);
        assert_eq!(fused, &a - &(&b * k));
    }
    let mut fused = a.clone();
    fused.sub_assign_scaled(&b, 7);
    assert_eq!(fused.as_slice(), &[93, 214, 279, 428]);
}

#[test]
fn component_product_both_ways() {
    let a = grid(2, 2, &[1, -2, 3, -4]);
    let b = grid(2, 2, &[5, 6, -7, 0]);
    assert_eq!(a.component_mul(&b).as_slice(), &[5, -12, -21, 0]);
    let c = a.clone().component_mul_inplace(&b);
    assert_eq!(c, a.component_mul(&b));
}

#[test]
fn sum_adds_every_cell() {
    assert_eq!(grid(2, 3, &[1, -2, 3, -4, 5, -6]).sum(), -3);
    assert_eq!(Matrix::new(1, 1, vec![42u32]).unwrap().sum(), 42);
    assert_eq!(Matrix::<u64>::ones(7, 9).unwrap().sum(), 63);
    assert_eq!(Matrix::new(1, 2, vec![i32::MAX, i32::MIN]).unwrap().sum(), -1);
}

// -------- Matrix product --------

#[test]
fn matmul_of_two_by_three_and_three_by_two() {
    let a = grid(2, 3, &[1, 2, 3, 4, 5, 6]);
    let b = grid(3, 2, &[7, 8, 9, 10, 11, 12]);
    let c = a.matmul(&b);
    assert_eq!((c.rows(), c.cols()), (2, 2));
    assert_eq!(c.as_slice(), &[58, 64, 139, 154]);
    assert_eq!(&a * &b, c);
    let d = b.matmul(&a);
    assert_eq!((d.rows(), d.cols()), (3, 3));
    assert_eq!(d.as_slice(), &[39, 54, 69, 49, 68, 87, 59, 82, 105]);
}

#[test]
fn matmul_by_identity_on_either_side() {
    let m = grid(2, 3, &[1, -2, 3, -4, 5, -6]);
    let right = Matrix::<i64>::identity(m.cols()).unwrap();
    let left = Matrix::<i64>::identity(m.rows()).unwrap();
    assert_eq!(m.matmul(&right), m);
    assert_eq!(left.matmul(&m), m);
}

#[test]
fn matmul_by_zero_is_zero_of_the_product_shape() {
    let m = grid(2, 3, &[1, -2, 3, -4, 5, -6]);
    let zero = Matrix::<i64>::zeroes(3, 4).unwrap();
    let p = m.matmul(&zero);
    assert_eq!(p, Matrix::<i64>::zeroes(2, 4).unwrap());
}

#[test]
fn matmul_of_a_row_and_a_column_both_ways() {
    let row = Matrix::new(1, 3, vec![1i32, 2, 3]).unwrap();
    let col = Matrix::new(3, 1, vec![4i32, 5, 6]).unwrap();
    let inner = &row * &col;
    assert_eq!((inner.rows(), inner.cols()), (1, 1));
    assert_eq!(inner.as_slice(), &[32]);

    let col = Matrix::new(3, 1, vec![1i32, 2, 3]).unwrap();
    let row = Matrix::new(1, 3, vec![4i32, 5, 6]).unwrap();
    let outer = &col * &row;
    assert_eq!((outer.rows(), outer.cols()), (3, 3));
    assert_eq!(outer.as_slice(), &[4, 5, 6, 8, 10, 12, 12, 15, 18]);
}

#[test]
fn matmul_of_unsigned_cells() {
    let a = Matrix::new(1, 2, vec![2u32, 3]).unwrap();
    let b = Matrix::new(2, 1, vec![4u32, 5]).unwrap();
    assert_eq!(a.matmul(&b).as_slice(), &[23]);
    assert_eq!(b.matmul(&a).as_slice(), &[8, 12, 10, 15]);
}

// -------- Transformations --------

#[test]
fn apply_leaves_the_original_and_apply_inplace_agrees() {
    let m = grid(2, 2, &[1, 2, 3, 4]);
    let offset = 10;
    let mapped = m.apply(|x| x * x + offset);
    assert_eq!(m.as_slice(), &[1, 2, 3, 4]);
    assert_eq!(mapped.as_slice(), &[11, 14, 19, 26]);
    assert_eq!((mapped.rows(), mapped.cols()), (2, 2));
    let inplace = m.clone().apply_inplace(|x| x * x + offset);
    assert_eq!(inplace, mapped);
}

#[test]
fn as_mut_slice_writes_through() {
    let mut m = grid(2, 2, &[0, 0, 0, 0]);
    m.as_mut_slice()[1] = 5;
    m.as_mut_slice()[2] = -5;
    assert_eq!(m.as_slice(), &[0, 5, -5, 0]);
    assert_eq!((m.rows(), m.cols()), (2, 2));
}

// -------- Text --------

#[test]
fn to_text_of_integers() {
    let m = grid(2, 3, &[1, -2, 3, 40, 5, 600]);
    assert_eq!(m.to_text(), "\n[[1, -2, 3],\n[40, 5, 600]]");
    assert_eq!(grid(1, 1, &[7]).to_text(), "\n[[7]]");
    assert_eq!(grid(3, 1, &[7, 8, 9]).to_text(), "\n[[7],\n[8],\n[9]]");
}

#[test]
fn to_text_of_floats_has_two_decimals() {
    let m = Matrix::new(2, 2, vec![1.0f64, 2.5, -3.14159, 4.005]).unwrap();
    assert_eq!(m.to_text(), "\n[[1.00, 2.50],\n[-3.14, 4.00]]");
    let m = Matrix::new(1, 2, vec![f64::INFINITY, f64::NAN]).unwrap();
    assert_eq!(m.to_text(), "\n[[inf, NaN]]");
}

#[test]
fn render_cells_lays_out_any_texts() {
    let texts = vec!["a".to_string(), "".to_string(), "ccc".to_string(), "d".to_string()];
    assert_eq!(render_cells(2, 2, &texts), "\n[[a, ],\n[ccc, d]]");
    assert_eq!(render_cells(1, 4, &texts), "\n[[a, , ccc, d]]");
    assert_eq!(render_cells(4, 1, &texts), "\n[[a],\n[],\n[ccc],\n[d]]");
}
