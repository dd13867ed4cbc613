use lingers::dvec::DVector;
use lingers::error::LinError;
use lingers::svec::SVector;
use lingers::vector::{FullVector, FullVectorMut, Vector, VectorMut};

#[test]
fn get_present_below_dim_absent_above() {
    let v: DVector<u64> = DVector::from_vec(vec![5, 6, 7]);
    assert_eq!(v.dim(), 3);
    assert_eq!(v.get(0), Some(&5));
    assert_eq!(v.get(1), Some(&6));
    assert_eq!(v.get(2), Some(&7));
    assert_eq!(v.get(3), None);
    assert_eq!(v.get(100), None);
}

#[test]
fn zero_vec_is_all_zero() {
    let v: DVector<u64> = DVector::zero_vec(4);
    assert_eq!(v.dim(), 4);
    for i in 0..4 {
        assert_eq!(v.get(i), Some(&0));
    }
}

#[test]
fn dot_euclid_literal() {
    let a: DVector<u64> = DVector::from_vec(vec![1, 0, 1]);
    let b: DVector<u64> = DVector::from_vec(vec![1, 1, 1]);
    assert_eq!(a.dot_euclid(&b), 2);
}

#[test]
fn dot_euclid_truncates_to_shorter() {
    let a: DVector<u64> = DVector::from_vec(vec![2, 3, 100]);
    let b: DVector<u64> = DVector::from_vec(vec![4, 5]);
    assert_eq!(a.dot_euclid(&b), 2 * 4 + 3 * 5);
}

#[test]
fn add_literal() {
    let a: DVector<u64> = DVector::from_vec(vec![1, 0, 1]);
    let b: DVector<u64> = DVector::from_vec(vec![1, 1, 1]);
    let c = a.add(&b).unwrap();
    assert_eq!(c.get(0), Some(&2));
    assert_eq!(c.get(1), Some(&1));
    assert_eq!(c.get(2), Some(&2));
}

#[test]
fn add_mismatched_lengths_is_rejected() {
    let a: DVector<u64> = DVector::from_vec(vec![1, 2, 3]);
    let b: DVector<u64> = DVector::from_vec(vec![10, 20]);
    let e = match a.add(&b) {
        Ok(_) => panic!("mismatched dimensions must be rejected"),
        Err(e) => e,
    };
    assert_eq!(e, LinError::DimensionMismatch { left_dim: 3, right_dim: 2 });
}

#[test]
fn add_assign_mismatched_leaves_vector_unchanged() {
    let mut a: DVector<u64> = DVector::from_vec(vec![1, 2, 3]);
    let b: DVector<u64> = DVector::from_vec(vec![10, 20]);
    assert!(a.add_assign(&b).is_err());
    assert_eq!(a.get(0), Some(&1));
    assert_eq!(a.get(1), Some(&2));
    assert_eq!(a.get(2), Some(&3));
}

#[test]
fn add_neg_gives_zero() {
    let a: DVector<u64> = DVector::from_vec(vec![1, 7, u64::MAX]);
    let n = a.clone().neg();
    let z = a.add(&n).unwrap();
    for i in 0..3 {
        assert_eq!(z.get(i), Some(&0));
    }
}

#[test]
fn add_commutes() {
    let a: DVector<u64> = DVector::from_vec(vec![3, 5, 9]);
    let b: DVector<u64> = DVector::from_vec(vec![4, 1, 8]);
    let ab = a.clone().add(&b).unwrap();
    let ba = b.add(&a).unwrap();
    for i in 0..3 {
        assert_eq!(ab.get(i), ba.get(i));
    }
}

#[test]
fn scalar_distributes_over_add() {
    let a: DVector<u64> = DVector::from_vec(vec![3, 5]);
    let b: DVector<u64> = DVector::from_vec(vec![4, 1]);
    let s: u64 = 7;
    let left = a.clone().add(&b).unwrap().mul(s);
    let right = a.mul(s).add(&b.mul(s)).unwrap();
    for i in 0..2 {
        assert_eq!(left.get(i), right.get(i));
    }
}

#[test]
fn dot_euclid_commutes() {
    let a: DVector<u64> = DVector::from_vec(vec![2, 3, 4]);
    let b: DVector<u64> = DVector::from_vec(vec![5, 6, 7]);
    assert_eq!(a.dot_euclid(&b), b.dot_euclid(&a));
}

#[test]
fn norm_sqr_literal() {
    let v: DVector<u64> = DVector::from_vec(vec![3, 4]);
    assert_eq!(v.norm_sqr(), 25);
}

#[test]
fn get_mut_writes_in_range_only() {
    let mut v: DVector<u64> = DVector::from_vec(vec![1, 2]);
    if let Some(r) = v.get_mut(1) {
        *r = 42;
    }
    assert!(v.get_mut(2).is_none());
    assert_eq!(v.get(0), Some(&1));
    assert_eq!(v.get(1), Some(&42));
}

#[test]
fn direct_indexing_reads_and_writes() {
    let mut v: DVector<u64> = DVector::from_vec(vec![9, 8]);
    assert_eq!(*v.index(0), 9);
    *v.index_mut(1) = 80;
    assert_eq!(*v.index(1), 80);
}

#[test]
fn mul_assign_scales_in_place() {
    let mut v: DVector<u64> = DVector::from_vec(vec![2, 3]);
    v.mul_assign(10);
    assert_eq!(v.get(0), Some(&20));
    assert_eq!(v.get(1), Some(&30));
}

#[test]
fn svector_basic_access() {
    let v: SVector<u64, 3> = SVector::from_array([4, 5, 6]);
    assert_eq!(v.dim(), 3);
    assert_eq!(v.get(2), Some(&6));
    assert_eq!(v.get(3), None);
}

#[test]
fn svector_zero_and_is_zero() {
    let z: SVector<u64, 4> = SVector::zero();
    assert!(z.is_zero());
    let v: SVector<u64, 4> = SVector::from_array([0, 0, 1, 0]);
    assert!(!v.is_zero());
}

#[test]
fn svector_add_and_neg() {
    let a: SVector<u64, 2> = SVector::from_array([1, 2]);
    let b: SVector<u64, 2> = SVector::from_array([10, 20]);
    let c = a.add(&b);
    assert_eq!(c.get(0), Some(&11));
    assert_eq!(c.get(1), Some(&22));
    let z = a.add(&a.neg());
    assert!(z.is_zero());
}

#[test]
fn svector_into_dvector_round_trip() {
    let s: SVector<u64, 3> = SVector::from_array([7, 8, 9]);
    let d = s.into_dvector();
    assert_eq!(d.dim(), 3);
    assert_eq!(d.get(0), Some(&7));
    assert_eq!(d.get(1), Some(&8));
    assert_eq!(d.get(2), Some(&9));
}

#[test]
fn svector_zero_vec_matches_type_dimension() {
    let v: SVector<u64, 5> = SVector::zero_vec(5);
    assert_eq!(v.dim(), 5);
    assert!(v.is_zero());
}

#[test]
fn svector_mixed_dot_with_dvector_model() {
    let s: SVector<u64, 3> = SVector::from_array([1, 0, 1]);
    let d = s.into_dvector();
    let b: DVector<u64> = DVector::from_vec(vec![1, 1, 1]);
    assert_eq!(d.dot_euclid(&b), 2);
}

#[test]
fn mixed_storage_dot_product() {
    let s: SVector<u64, 3> = SVector::from_array([1, 0, 1]);
    let d: DVector<u64> = DVector::from_vec(vec![1, 1, 1]);
    assert_eq!(lingers::vector::dot_euclid_mixed(&s, &d), 2);
}
