use lingers::dvec::DVector;
use lingers::field::{ComplexField, Field};
use lingers::vector::Vector;

/// A complex scalar for exercising the sesquilinear algorithms. Floating
/// point stays outside the verified library, so the field capability is
/// implemented here, by the caller.
#[derive(Clone, Copy, Debug, PartialEq)]
struct C64 {
    re: f64,
    im: f64,
}

fn c(re: f64, im: f64) -> C64 {
    C64 { re, im }
}

// The specification and proof members of the field interfaces are never
// called at run time; they are given the same meaning as the run-time
// operations.
impl Field for C64 {
    fn sp_add(self, rhs: C64) -> C64 {
        c(self.re + rhs.re, self.im + rhs.im)
    }

    fn sp_mul(self, rhs: C64) -> C64 {
        c(
            self.re * rhs.re - self.im * rhs.im,
            self.re * rhs.im + self.im * rhs.re,
        )
    }

    fn sp_neg(self) -> C64 {
        c(-self.re, -self.im)
    }

    fn sp_zero() -> C64 {
        c(0.0, 0.0)
    }

    fn lemma_add_comm(_: C64, _: C64) {}

    fn lemma_add_assoc(_: C64, _: C64, _: C64) {}

    fn lemma_add_zero(_: C64) {}

    fn lemma_add_neg(_: C64) {}

    fn lemma_mul_comm(_: C64, _: C64) {}

    fn lemma_mul_assoc(_: C64, _: C64, _: C64) {}

    fn lemma_distrib(_: C64, _: C64, _: C64) {}

    fn zero() -> C64 {
        c(0.0, 0.0)
    }

    fn add(self, rhs: C64) -> C64 {
        c(self.re + rhs.re, self.im + rhs.im)
    }

    fn mul(self, rhs: C64) -> C64 {
        c(
            self.re * rhs.re - self.im * rhs.im,
            self.re * rhs.im + self.im * rhs.re,
        )
    }

    fn neg(self) -> C64 {
        c(-self.re, -self.im)
    }

    fn is_zero(&self) -> bool {
        self.re == 0.0 && self.im == 0.0
    }
}

impl ComplexField for C64 {
    type Real = C64;

    fn sp_conj(self) -> C64 {
        c(self.re, -self.im)
    }

    fn sp_abs(self) -> C64 {
        c((self.re * self.re + self.im * self.im).sqrt(), 0.0)
    }

    fn sp_sqrt(self) -> C64 {
        let r = (self.re * self.re + self.im * self.im).sqrt();
        let theta = self.im.atan2(self.re) / 2.0;
        c(r.sqrt() * theta.cos(), r.sqrt() * theta.sin())
    }

    fn sp_real_sqrt(x: C64) -> C64 {
        c(x.re.sqrt(), 0.0)
    }

    fn lemma_conj_add(_: C64, _: C64) {}

    fn lemma_conj_mul(_: C64, _: C64) {}

    fn lemma_conj_conj(_: C64) {}

    fn lemma_conj_zero() {}

    fn lemma_sqrt_zero() {}

    fn conjugate(self) -> C64 {
        c(self.re, -self.im)
    }

    fn abs(self) -> C64 {
        c((self.re * self.re + self.im * self.im).sqrt(), 0.0)
    }

    fn sqrt(self) -> C64 {
        let r = (self.re * self.re + self.im * self.im).sqrt();
        let theta = self.im.atan2(self.re) / 2.0;
        c(r.sqrt() * theta.cos(), r.sqrt() * theta.sin())
    }

    fn real_sqrt(x: C64) -> C64 {
        c(x.re.sqrt(), 0.0)
    }
}

#[test]
fn cdot_conjugates_left_operand() {
    // conj(i) * i == 1, so the self cdot of [i] is real and positive.
    let v: DVector<C64> = DVector::from_vec(vec![c(0.0, 1.0)]);
    assert_eq!(v.cdot_euclid(&v), c(1.0, 0.0));
}

#[test]
fn cdot_is_conjugate_symmetric() {
    let v: DVector<C64> = DVector::from_vec(vec![c(1.0, 2.0), c(0.0, -1.0)]);
    let w: DVector<C64> = DVector::from_vec(vec![c(3.0, -1.0), c(2.0, 5.0)]);
    let vw = v.cdot_euclid(&w);
    let wv = w.cdot_euclid(&v);
    assert_eq!(vw, wv.conjugate());
}

#[test]
fn cnorm_sqr_sums_magnitudes() {
    let v: DVector<C64> = DVector::from_vec(vec![c(3.0, 4.0), c(0.0, -2.0)]);
    assert_eq!(v.cnorm_sqr(), c(7.0, 0.0));
}

#[test]
fn mixed_storage_cdot_matches_trait_method() {
    let s = lingers::svec::SVector::<C64, 2>::from_array([c(1.0, 1.0), c(2.0, 0.0)]);
    let d: DVector<C64> = DVector::from_vec(vec![c(0.0, 1.0), c(1.0, 0.0)]);
    let via_free = lingers::vector::cdot_euclid_mixed(&s, &d);
    let via_method = s.into_dvector().cdot_euclid(&d);
    assert_eq!(via_free, via_method);
}
