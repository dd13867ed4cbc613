use lingers::dmat::DMatrix;
use lingers::dvec::DVector;
use lingers::error::LinError;
use lingers::matrix::{FullMatrix, FullMatrixMut, MatVecMul, Matrix, MatrixMut};
use lingers::smat::SMatrix;
use lingers::svec::SVector;
use lingers::vector::Vector;

#[test]
fn dmatrix_shape_and_get() {
    let m: DMatrix<u64> = DMatrix::from_vec(2, 3, vec![1, 2, 3, 4, 5, 6]);
    assert_eq!(m.nrows(), 2);
    assert_eq!(m.ncols(), 3);
    assert_eq!(m.get(0, 0), Some(&1));
    assert_eq!(m.get(0, 2), Some(&3));
    assert_eq!(m.get(1, 0), Some(&4));
    assert_eq!(m.get(1, 2), Some(&6));
    assert_eq!(m.get(2, 0), None);
    assert_eq!(m.get(0, 3), None);
}

#[test]
fn dmatrix_zero_mat_is_zero() {
    let m: DMatrix<u64> = DMatrix::zero_mat(3, 2);
    assert_eq!(m.nrows(), 3);
    assert_eq!(m.ncols(), 2);
    assert!(m.is_zero());
}

#[test]
fn dmatrix_add_and_mismatch() {
    let a: DMatrix<u64> = DMatrix::from_vec(2, 2, vec![1, 2, 3, 4]);
    let b: DMatrix<u64> = DMatrix::from_vec(2, 2, vec![10, 20, 30, 40]);
    let c = a.clone().add(&b).unwrap();
    assert_eq!(c.get(0, 0), Some(&11));
    assert_eq!(c.get(1, 1), Some(&44));

    let d: DMatrix<u64> = DMatrix::from_vec(1, 4, vec![1, 2, 3, 4]);
    let e = match a.add(&d) {
        Ok(_) => panic!("mismatched shapes must be rejected"),
        Err(e) => e,
    };
    assert_eq!(
        e,
        LinError::ShapeMismatch { left_rows: 2, left_cols: 2, right_rows: 1, right_cols: 4 },
    );
}

#[test]
fn dmatrix_neg_scale_and_set_zero() {
    let a: DMatrix<u64> = DMatrix::from_vec(2, 2, vec![1, 2, 3, 4]);
    let n = a.clone().neg();
    let z = a.clone().add(&n).unwrap();
    assert!(z.is_zero());

    let s = a.clone().mul(3);
    assert_eq!(s.get(1, 0), Some(&9));

    let mut w = a;
    w.set_zero();
    assert!(w.is_zero());
}

#[test]
fn dmatrix_direct_indexing() {
    let mut m: DMatrix<u64> = DMatrix::from_vec(2, 2, vec![1, 2, 3, 4]);
    assert_eq!(*m.index(1, 0), 3);
    *m.index_mut(0, 1) = 20;
    assert_eq!(m.get(0, 1), Some(&20));
}

#[test]
fn dmatrix_get_mut_bounds() {
    let mut m: DMatrix<u64> = DMatrix::from_vec(1, 2, vec![5, 6]);
    if let Some(r) = m.get_mut(0, 1) {
        *r = 60;
    }
    assert!(m.get_mut(1, 0).is_none());
    assert_eq!(m.get(0, 1), Some(&60));
}

#[test]
fn smatrix_from_rows_is_row_major() {
    let m: SMatrix<u64, 2, 3> = SMatrix::from_rows([[1, 2, 3], [4, 5, 6]]);
    assert_eq!(m.nrows(), 2);
    assert_eq!(m.ncols(), 3);
    assert_eq!(m.get(0, 0), Some(&1));
    assert_eq!(m.get(0, 2), Some(&3));
    assert_eq!(m.get(1, 1), Some(&5));
    assert_eq!(m.get(1, 2), Some(&6));
    assert_eq!(m.get(2, 0), None);
    assert_eq!(m.get(0, 3), None);
}

#[test]
fn smatrix_from_cols_and_column_access() {
    let c0: SVector<u64, 2> = SVector::from_array([1, 4]);
    let c1: SVector<u64, 2> = SVector::from_array([2, 5]);
    let m: SMatrix<u64, 2, 2> = SMatrix::from_cols([c0, c1]);
    assert_eq!(m.get(0, 1), Some(&2));
    assert_eq!(m.get(1, 0), Some(&4));

    let col = m.clone_col(1).unwrap();
    assert_eq!(Vector::get(&col, 0), Some(&2));
    assert_eq!(Vector::get(&col, 1), Some(&5));
    assert!(m.clone_col(2).is_none());

    let col_ref = m.get_col(0).unwrap();
    assert_eq!(Vector::get(col_ref, 1), Some(&4));
    assert!(m.get_col(2).is_none());
}

#[test]
fn smatrix_into_svector_unwraps_single_column() {
    let c: SVector<u64, 3> = SVector::from_array([7, 8, 9]);
    let m: SMatrix<u64, 3, 1> = SMatrix::from_cols([c]);
    let v = m.into_svector();
    assert_eq!(Vector::get(&v, 0), Some(&7));
    assert_eq!(Vector::get(&v, 2), Some(&9));
}

#[test]
fn smatrix_arithmetic() {
    let a: SMatrix<u64, 2, 2> = SMatrix::from_rows([[1, 2], [3, 4]]);
    let b: SMatrix<u64, 2, 2> = SMatrix::from_rows([[10, 20], [30, 40]]);
    let c = a.add(&b);
    assert_eq!(c.get(0, 0), Some(&11));
    assert_eq!(c.get(1, 1), Some(&44));

    let s = a.mul(2);
    assert_eq!(s.get(1, 0), Some(&6));

    let z = a.add(&a.neg());
    assert!(z.is_zero());
}

#[test]
fn identity_times_vector_is_identity() {
    let id: SMatrix<u64, 3, 3> = SMatrix::from_rows([[1, 0, 0], [0, 1, 0], [0, 0, 1]]);
    let v: SVector<u64, 3> = SVector::from_array([1, 2, 3]);
    let r = id.mul_vec(&v);
    assert_eq!(Vector::get(&r, 0), Some(&1));
    assert_eq!(Vector::get(&r, 1), Some(&2));
    assert_eq!(Vector::get(&r, 2), Some(&3));
}

#[test]
fn mat_vec_product_literal() {
    let m: SMatrix<u64, 2, 3> = SMatrix::from_rows([[1, 2, 3], [4, 5, 6]]);
    let v: SVector<u64, 3> = SVector::from_array([1, 1, 1]);
    let r = m.mul_vec(&v);
    assert_eq!(Vector::get(&r, 0), Some(&6));
    assert_eq!(Vector::get(&r, 1), Some(&15));
    let r2 = m.apply(&v);
    assert_eq!(Vector::get(&r2, 0), Some(&6));
    assert_eq!(Vector::get(&r2, 1), Some(&15));
}

#[test]
fn mat_mat_product_literal() {
    let a: SMatrix<u64, 2, 2> = SMatrix::from_rows([[1, 2], [3, 4]]);
    let b: SMatrix<u64, 2, 2> = SMatrix::from_rows([[5, 6], [7, 8]]);
    let c = a.mul_mat(&b);
    assert_eq!(c.get(0, 0), Some(&19));
    assert_eq!(c.get(0, 1), Some(&22));
    assert_eq!(c.get(1, 0), Some(&43));
    assert_eq!(c.get(1, 1), Some(&50));
}

#[test]
fn mat_mat_product_associates() {
    let a: SMatrix<u64, 2, 3> = SMatrix::from_rows([[1, 2, 3], [4, 5, 6]]);
    let b: SMatrix<u64, 3, 2> = SMatrix::from_rows([[7, 8], [9, 10], [11, 12]]);
    let c: SMatrix<u64, 2, 2> = SMatrix::from_rows([[13, 14], [15, 16]]);
    let left = a.mul_mat(&b).mul_mat(&c);
    let right = a.mul_mat(&b.mul_mat(&c));
    for i in 0..2 {
        for j in 0..2 {
            assert_eq!(left.get(i, j), right.get(i, j));
        }
    }
}

#[test]
fn vector_acts_as_single_column_matrix() {
    let v: DVector<u64> = DVector::from_vec(vec![1, 0, 2]);
    assert_eq!(Matrix::nrows(&v), 3);
    assert_eq!(Matrix::ncols(&v), 1);
    assert_eq!(Matrix::get(&v, 1, 0), Some(&0));
    assert_eq!(Matrix::get(&v, 1, 1), None);
    assert!(!Matrix::is_zero(&v));

    let z: DVector<u64> = DVector::zero_vec(2);
    assert!(Matrix::is_zero(&z));

    let zm: DVector<u64> = Matrix::zero_mat(4, 1);
    assert_eq!(Matrix::nrows(&zm), 4);
    assert!(Matrix::is_zero(&zm));
}

#[test]
fn mutable_vector_acts_as_single_column_matrix() {
    let mut v: DVector<u64> = DVector::from_vec(vec![1, 2]);
    if let Some(r) = MatrixMut::get_mut(&mut v, 0, 0) {
        *r = 10;
    }
    assert!(MatrixMut::get_mut(&mut v, 0, 1).is_none());
    assert_eq!(Vector::get(&v, 0), Some(&10));
    MatrixMut::set_zero(&mut v);
    assert_eq!(Vector::get(&v, 0), Some(&0));
    assert_eq!(Vector::get(&v, 1), Some(&0));
}

#[test]
fn smatrix_set_zero_and_get_mut() {
    let mut m: SMatrix<u64, 2, 2> = SMatrix::from_rows([[1, 2], [3, 4]]);
    if let Some(r) = m.get_mut(1, 1) {
        *r = 40;
    }
    assert_eq!(m.get(1, 1), Some(&40));
    assert!(m.get_mut(2, 0).is_none());
    m.set_zero();
    assert!(m.is_zero());
}

#[test]
fn smatrix_direct_indexing() {
    let mut m: SMatrix<u64, 2, 2> = SMatrix::from_rows([[1, 2], [3, 4]]);
    assert_eq!(*FullMatrix::index(&m, 0, 1), 2);
    *FullMatrixMut::index_mut(&mut m, 1, 0) = 30;
    assert_eq!(m.get(1, 0), Some(&30));
}
