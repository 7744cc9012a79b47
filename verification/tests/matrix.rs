use ray_tracer::matrix::{Matrix, Matrix3};

#[test]
fn test_submatrix() {
    let mut a: Matrix3<f64> = Matrix3::new(0.0);
    for i in 0..3 {
        for j in 0..3 {
            a.set(i, j, (i * 3 + j) as f64);
        }
    }
    let b = a.submatrix(0, 0);
    assert_eq!(b.get(0, 0), 4.0);
    assert_eq!(b.get(0, 1), 5.0);
    assert_eq!(b.get(1, 0), 7.0);
    assert_eq!(b.get(1, 1), 8.0);
}

#[test]
fn submatrix_strikes_middle_row_and_column() {
    let mut a: Matrix<i64> = Matrix::new(0);
    for i in 0..4 {
        for j in 0..4 {
            a.set(i, j, (i * 4 + j) as i64);
        }
    }
    let b = a.submatrix(2, 1);
    assert_eq!(b.get(0, 0), 0);
    assert_eq!(b.get(0, 1), 2);
    assert_eq!(b.get(0, 2), 3);
    assert_eq!(b.get(1, 0), 4);
    assert_eq!(b.get(1, 1), 6);
    assert_eq!(b.get(1, 2), 7);
    assert_eq!(b.get(2, 0), 12);
    assert_eq!(b.get(2, 1), 14);
    assert_eq!(b.get(2, 2), 15);
}

#[test]
fn transpose_flips_rows_and_columns() {
    let entries: Vec<f64> = (0..16).map(|k| k as f64).collect();
    let a = Matrix::from_vec(entries);
    let t = a.transpose();
    for i in 0..4 {
        for j in 0..4 {
            assert_eq!(t.get(i, j), a.get(j, i));
        }
    }
    assert_eq!(t.get(0, 1), 4.0);
    assert_eq!(t.get(3, 0), 3.0);
}

#[test]
fn identity_layout() {
    let id: Matrix<f64> = Matrix::id(0.0, 1.0);
    for i in 0..4 {
        for j in 0..4 {
            assert_eq!(id.get(i, j), if i == j { 1.0 } else { 0.0 });
        }
    }
}
