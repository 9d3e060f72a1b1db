use lib::Matrix;

#[test]
fn test_matrix_add_sub_mul() {
    let mut m1 = Matrix::<i32, 2, 2>::default();
    *m1.index_mut((1, 1)) = 4;
    *m1.index_mut((0, 0)) = 1;

    let m2 = Matrix::new([[0, 0], [0, 1]]);
    assert_eq!(m2[(1, 1)], 1);

    let m3 = m1 + m2;
    assert_eq!(m3, Matrix::new([[1, 0], [0, 5]]));
    assert_eq!(m3[(0, 0)], 1);
    assert_eq!(m3[(1, 1)], 5);

    assert_eq!(&m1 + m2, Matrix::new([[1, 0], [0, 5]]));
    assert_eq!(m1 + &m2, Matrix::new([[1, 0], [0, 5]]));
    assert_eq!(&m1 + &m2, Matrix::new([[1, 0], [0, 5]]));

    let m4 = m1 - m2;
    assert_eq!(m4, Matrix::new([[1, 0], [0, 3]]));
    assert_eq!(m4[(0, 0)], 1);
    assert_eq!(m4[(1, 1)], 3);

    assert_eq!(&m1 - m2, Matrix::new([[1, 0], [0, 3]]));
    assert_eq!(m1 - &m2, Matrix::new([[1, 0], [0, 3]]));
    assert_eq!(&m1 - &m2, Matrix::new([[1, 0], [0, 3]]));

    let id = Matrix::new([[1, 0], [0, 1]]);
    assert_eq!(m1, m1 * id);

    let m5 = Matrix::<i32, 2, 2>::new([[1, 2], [3, 4]]);
    assert_eq!(m4 * m5 * 2, Matrix::new([[2, 4], [18, 24]]));
}

#[test]
fn test_matrix_rows_cols_iter() {
    let mut m: Matrix<i32, 3, 3> = Default::default();
    *m.index_mut((0, 0)) = 1;
    *m.index_mut((1, 1)) = 2;
    *m.index_mut((2, 2)) = 3;
    *m.index_mut((0, 2)) = 4;

    let mut rows = m.rows_ref();

    assert_eq!(rows.len(), 3);
    assert!(rows.next().unwrap().iter().eq(&[&1, &0, &0]));
    assert!(rows.next().unwrap().iter().eq(&[&0, &2, &0]));
    assert!(rows.next().unwrap().iter().eq(&[&4, &0, &3]));
    assert_eq!(rows.next(), None);

    let mut cols = m.cols_ref();

    assert_eq!(cols.len(), 3);
    assert!(cols.next().unwrap().iter().eq(&[&1, &0, &4]));
    assert!(cols.next().unwrap().iter().eq(&[&0, &2, &0]));
    assert!(cols.next().unwrap().iter().eq(&[&0, &0, &3]));
    assert_eq!(cols.next(), None);

    let mut rows = m.rows();

    assert_eq!(rows.len(), 3);
    assert!(rows.next().unwrap().iter().eq(&[1, 0, 0]));
    assert!(rows.next().unwrap().iter().eq(&[0, 2, 0]));
    assert!(rows.next().unwrap().iter().eq(&[4, 0, 3]));
    assert_eq!(rows.next(), None);

    let mut cols = m.cols();

    assert_eq!(cols.len(), 3);
    assert!(cols.next().unwrap().iter().eq(&[1, 0, 4]));
    assert!(cols.next().unwrap().iter().eq(&[0, 2, 0]));
    assert!(cols.next().unwrap().iter().eq(&[0, 0, 3]));
    assert_eq!(cols.next(), None);
}

#[test]
fn matrix_index_is_column_then_row() {
    let m = Matrix::<i32, 3, 3>::new([[0, 0, 0], [0, 1, 0], [0, 2, 0]]);
    assert_eq!(m[(1, 1)], 1);
    assert_eq!(m[(1, 2)], 2);
    assert_eq!(m.rows().nth(1), Some([0, 1, 0]));
    assert_eq!(m.cols().nth(1), Some([0, 1, 2]));
    assert_eq!(m + m, Matrix::new([[0, 0, 0], [0, 2, 0], [0, 4, 0]]));
}

#[test]
fn matrix_from_flat_array_is_row_major() {
    let mat = Matrix::<i32, 2, 2>::from_flat_array([1, 2, 3, 4]);
    assert_eq!(mat, Matrix::new([[1, 2], [3, 4]]));
    let wide = Matrix::<i32, 2, 3>::from_flat_array([1, 2, 3, 4, 5, 6]);
    assert_eq!(wide, Matrix::new([[1, 2, 3], [4, 5, 6]]));
    assert_eq!(wide[(2, 0)], 3);
    assert_eq!(wide[(0, 1)], 4);
}

#[test]
fn matrix_from_vector_is_row_major() {
    let v = lib::Vector::<i64, 6>::new([1, 2, 3, 4, 5, 6]);
    let m = Matrix::<i64, 3, 2>::from_vector(v);
    assert_eq!(m, Matrix::new([[1, 2], [3, 4], [5, 6]]));
}

#[test]
fn matrix_dim() {
    assert_eq!(Matrix::<i32, 2, 5>::dim(), (2, 5));
    assert_eq!(Matrix::<u8, 1, 1>::dim(), (1, 1));
}

#[test]
fn matrix_scalar_mul() {
    let m = Matrix::<i32, 2, 3>::new([[1, -2, 3], [0, 5, -6]]);
    assert_eq!(m * 3, Matrix::new([[3, -6, 9], [0, 15, -18]]));
    assert_eq!(m * 2, m + m);
}

#[test]
fn matrix_product_of_non_square() {
    let a = Matrix::<i32, 2, 3>::new([[1, 2, 3], [4, 5, 6]]);
    let b = Matrix::<i32, 3, 2>::new([[7, 8], [9, 10], [11, 12]]);
    assert_eq!(a * b, Matrix::new([[58, 64], [139, 154]]));
    assert_eq!(b * a, Matrix::new([[39, 54, 69], [49, 68, 87], [59, 82, 105]]));
    let row = Matrix::<i32, 1, 3>::new([[1, 1, 1]]);
    let col = Matrix::<i32, 3, 1>::new([[2], [3], [4]]);
    assert_eq!(row * col, Matrix::new([[9]]));
}

#[test]
fn matrix_identity_both_sides() {
    let m = Matrix::<i64, 2, 3>::new([[1, 2, 3], [4, 5, 6]]);
    let i2 = Matrix::<i64, 2, 2>::new([[1, 0], [0, 1]]);
    let i3 = Matrix::<i64, 3, 3>::new([[1, 0, 0], [0, 1, 0], [0, 0, 1]]);
    assert_eq!(i2 * m, m);
    assert_eq!(m * i3, m);
}

#[test]
fn matrix_eq_compares_every_element() {
    let m = Matrix::<i32, 2, 2>::new([[1, 2], [3, 4]]);
    assert!(m == Matrix::new([[1, 2], [3, 4]]));
    assert!(m != Matrix::new([[1, 2], [3, 5]]));
    assert!(m != Matrix::new([[0, 2], [3, 4]]));
}

#[test]
fn matrix_default_is_zero() {
    let m: Matrix<i32, 2, 3> = Matrix::default();
    assert_eq!(m, Matrix::new([[0, 0, 0], [0, 0, 0]]));
}

#[test]
fn matrix_index_mut_writes_only_its_element() {
    let mut m = Matrix::<i32, 2, 3>::new([[1, 2, 3], [4, 5, 6]]);
    *m.index_mut((2, 1)) = 60;
    assert_eq!(m, Matrix::new([[1, 2, 3], [4, 5, 60]]));
    assert_eq!(m[(2, 1)], 60);
}

#[test]
fn matrix_cols_of_non_square() {
    let m = Matrix::<i32, 2, 3>::new([[1, 2, 3], [4, 5, 6]]);
    let mut cols = m.cols();
    assert_eq!(cols.len(), 3);
    assert_eq!(cols.size_hint(), (3, Some(3)));
    assert_eq!(cols.next(), Some([1, 4]));
    assert_eq!(cols.len(), 2);
    assert_eq!(cols.nth(1), Some([3, 6]));
    assert_eq!(cols.next(), None);
    assert_eq!(m.cols().count(), 3);
    let mut cr = m.cols_ref();
    assert_eq!(cr.nth(2), Some([&3, &6]));
    assert_eq!(cr.next(), None);
}

#[test]
fn matrix_cols_of_tall() {
    let m = Matrix::<i32, 3, 2>::new([[1, 2], [3, 4], [5, 6]]);
    let mut cols = m.cols_ref();
    assert_eq!(cols.len(), 2);
    assert_eq!(cols.next(), Some([&1, &3, &5]));
    assert_eq!(cols.count(), 1);
}

#[test]
fn matrix_rows_of_non_square() {
    let m = Matrix::<i32, 2, 3>::new([[1, 2, 3], [4, 5, 6]]);
    let mut rows = m.rows();
    assert_eq!(rows.size_hint(), (2, Some(2)));
    assert_eq!(rows.nth(1), Some([4, 5, 6]));
    assert_eq!(rows.next(), None);
    assert_eq!(m.rows().count(), 2);
    let mut rr = m.rows_ref();
    assert_eq!(rr.nth(0), Some([&1, &2, &3]));
    assert_eq!(rr.count(), 1);
}

#[test]
fn matrix_add_commutes_and_sub_cancels() {
    let a = Matrix::<i64, 2, 3>::new([[1, -2, 3], [40, 50, -60]]);
    let b = Matrix::<i64, 2, 3>::new([[7, 8, 9], [-1, -2, -3]]);
    assert_eq!(a + b, b + a);
    assert_eq!((a + b) - b, a);
    assert_eq!(&(&a + &b) - &b, a);
}

#[test]
fn matrix_product_is_associative() {
    let a = Matrix::<i32, 2, 3>::new([[1, 2, 3], [4, 5, 6]]);
    let b = Matrix::<i32, 3, 2>::new([[1, -1], [0, 2], [3, 1]]);
    let c = Matrix::<i32, 2, 4>::new([[2, 0, 1, -3], [1, 1, 0, 5]]);
    let left = (a * b) * c;
    let right = a * (b * c);
    assert_eq!(left, right);
    assert_eq!(left, Matrix::new([[26, 6, 10, 0], [56, 12, 22, -6]]));
}

#[test]
fn matrix_clone_is_equal() {
    let m = Matrix::<i32, 2, 2>::new([[1, 2], [3, 4]]);
    assert_eq!(m.clone(), m);
}

#[test]
fn matrix_of_strings_from_flat_array_and_iteration() {
    let s = |x: &str| x.to_string();
    let m = Matrix::<String, 2, 2>::from_flat_array([s("a"), s("b"), s("c"), s("d")]);
    assert_eq!(m[(1, 0)], "b");
    assert_eq!(m[(0, 1)], "c");
    let mut rows = m.rows();
    assert_eq!(rows.next(), Some([s("a"), s("b")]));
    assert_eq!(rows.next(), Some([s("c"), s("d")]));
    assert_eq!(rows.next(), None);
    let mut cols = m.cols();
    assert_eq!(cols.next(), Some([s("a"), s("c")]));
    assert_eq!(cols.next(), Some([s("b"), s("d")]));
    assert_eq!(cols.next(), None);
    let v = lib::Vector::<String, 2>::new([s("x"), s("y")]);
    let n = Matrix::<String, 1, 2>::from_vector(v);
    assert_eq!(n, Matrix::new([[s("x"), s("y")]]));
    let d: Matrix<String, 2, 1> = Matrix::default();
    assert_eq!(d, Matrix::new([[String::new()], [String::new()]]));
}
