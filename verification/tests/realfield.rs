use lingers::dvec::DVector;
use lingers::field::{ComplexField, Field, RealField};
use lingers::svec::SVector;
use lingers::vector::Vector;

/// A real scalar for exercising the norm and conjugation algorithms.
/// Floating point stays outside the verified library, so the field
/// capability is implemented here, by the caller, as the design intends.
#[derive(Clone, Copy, Debug, PartialEq)]
struct R64(f64);

// The specification and proof members of the field interfaces are never
// called at run time; they are given the same meaning as the run-time
// operations.
impl Field for R64 {

    fn sp_add(self, rhs: R64) -> R64 {
        R64(self.0 + rhs.0)
    }

    fn sp_mul(self, rhs: R64) -> R64 {
        R64(self.0 * rhs.0)
    }

    fn sp_neg(self) -> R64 {
        R64(-self.0)
    }

    fn sp_zero() -> R64 {
        R64(0.0)
    }

    fn lemma_add_comm(_: R64, _: R64) {}

    fn lemma_add_assoc(_: R64, _: R64, _: R64) {}

    fn lemma_add_zero(_: R64) {}

    fn lemma_add_neg(_: R64) {}

    fn lemma_mul_comm(_: R64, _: R64) {}

    fn lemma_mul_assoc(_: R64, _: R64, _: R64) {}

    fn lemma_distrib(_: R64, _: R64, _: R64) {}

    fn zero() -> R64 {
        R64(0.0)
    }

    fn add(self, rhs: R64) -> R64 {
        R64(self.0 + rhs.0)
    }

    fn mul(self, rhs: R64) -> R64 {
        R64(self.0 * rhs.0)
    }

    fn neg(self) -> R64 {
        R64(-self.0)
    }

    fn is_zero(&self) -> bool {
        self.0 == 0.0
    }
}

impl ComplexField for R64 {
    type Real = R64;

    fn sp_conj(self) -> R64 {
        self
    }

    fn sp_abs(self) -> R64 {
        R64(self.0.abs())
    }

    fn sp_sqrt(self) -> R64 {
        R64(self.0.sqrt())
    }

    fn sp_real_sqrt(x: R64) -> R64 {
        R64(x.0.sqrt())
    }

    fn lemma_conj_add(_: R64, _: R64) {}

    fn lemma_conj_mul(_: R64, _: R64) {}

    fn lemma_conj_conj(_: R64) {}

    fn lemma_conj_zero() {}

    fn lemma_sqrt_zero() {}

    fn conjugate(self) -> R64 {
        self
    }

    fn abs(self) -> R64 {
        R64(self.0.abs())
    }

    fn sqrt(self) -> R64 {
        R64(self.0.sqrt())
    }

    fn real_sqrt(x: R64) -> R64 {
        R64(x.0.sqrt())
    }
}

impl RealField for R64 {
    fn sp_le(self, rhs: R64) -> bool {
        self.0 <= rhs.0
    }

    fn lemma_conj_id(_: R64) {}

    fn lemma_sq_nonneg(_: R64) {}

    fn lemma_nonneg_add(_: R64, _: R64) {}

    fn lemma_sqrt_scale(_: R64, _: R64) {}
}

#[test]
fn norm_of_3_4_is_5() {
    let v: DVector<R64> = DVector::from_vec(vec![R64(3.0), R64(4.0)]);
    assert_eq!(v.norm(), R64(5.0));
}

#[test]
fn norm_of_vector_sum_matches_hand_computation() {
    let a: DVector<R64> = DVector::from_vec(vec![R64(1.0), R64(0.0), R64(1.0)]);
    let b: DVector<R64> = DVector::from_vec(vec![R64(1.0), R64(1.0), R64(1.0)]);
    assert_eq!(a.dot_euclid(&b), R64(2.0));
    let s = a.add(&b).unwrap();
    assert_eq!(s.norm(), R64(3.0));
}

#[test]
fn norm_of_zero_vector_is_zero() {
    let v: DVector<R64> = DVector::zero_vec(5);
    assert_eq!(v.norm(), R64(0.0));
}

#[test]
fn norm_scales_by_absolute_value() {
    let v: SVector<R64, 2> = SVector::from_array([R64(3.0), R64(4.0)]);
    let w = v.mul(R64(-2.0));
    assert_eq!(w.norm(), R64(10.0));
}

#[test]
fn cnorm_sqr_sums_absolute_values() {
    let v: DVector<R64> = DVector::from_vec(vec![R64(-3.0), R64(4.0)]);
    assert_eq!(v.cnorm_sqr(), R64(7.0));
    assert_eq!(v.cnorm(), R64(7.0f64.sqrt()));
}

#[test]
fn cdot_euclid_on_reals_matches_dot() {
    let a: DVector<R64> = DVector::from_vec(vec![R64(1.0), R64(2.0)]);
    let b: DVector<R64> = DVector::from_vec(vec![R64(5.0), R64(-1.0)]);
    assert_eq!(a.cdot_euclid(&b), R64(3.0));
    assert_eq!(a.cdot_euclid(&b), b.cdot_euclid(&a));
}
