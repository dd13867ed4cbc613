//! The field-element capability: scalar types the containers are generic over.
//!
//! `Field` asks for the additive-group and multiplication operations together
//! with proofs of the algebraic laws the library's contracts rest on.
//! `ComplexField` extends it with conjugation, an absolute value into a real
//! companion type, and a square root; `RealField` is the self-conjugate case
//! with an ordering. Callers supply the element type; the library provides one
//! concrete `Field` on `u64`, with arithmetic modulo `2^64`.

use vstd::prelude::*;

verus! {

/// A scalar with additive-group structure and a commutative, associative,
/// distributive multiplication. Implementations must prove the laws, so every
/// contract stated over `sp_add`/`sp_mul`/`sp_neg`/`sp_zero` is grounded.
pub trait Field: Sized + Copy {
    /// Mathematical addition of the implementing type.
    spec fn sp_add(self, rhs: Self) -> Self;

    /// Mathematical multiplication of the implementing type.
    spec fn sp_mul(self, rhs: Self) -> Self;

    /// Mathematical additive inverse.
    spec fn sp_neg(self) -> Self;

    /// The additive identity.
    spec fn sp_zero() -> Self;

    proof fn lemma_add_comm(a: Self, b: Self)
        ensures
            a.sp_add(b) == b.sp_add(a),
    ;

    proof fn lemma_add_assoc(a: Self, b: Self, c: Self)
        ensures
            a.sp_add(b).sp_add(c) == a.sp_add(b.sp_add(c)),
    ;

    proof fn lemma_add_zero(a: Self)
        ensures
            a.sp_add(Self::sp_zero()) == a,
    ;

    proof fn lemma_add_neg(a: Self)
        ensures
            a.sp_add(a.sp_neg()) == Self::sp_zero(),
    ;

    proof fn lemma_mul_comm(a: Self, b: Self)
        ensures
            a.sp_mul(b) == b.sp_mul(a),
    ;

    proof fn lemma_mul_assoc(a: Self, b: Self, c: Self)
        ensures
            a.sp_mul(b).sp_mul(c) == a.sp_mul(b.sp_mul(c)),
    ;

    proof fn lemma_distrib(a: Self, b: Self, c: Self)
        ensures
            a.sp_add(b).sp_mul(c) == a.sp_mul(c).sp_add(b.sp_mul(c)),
    ;

    /// The additive identity, as a value.
    fn zero() -> (r: Self)
        ensures
            r == Self::sp_zero(),
    ;

    /// Addition.
    fn add(self, rhs: Self) -> (r: Self)
        ensures
            r == self.sp_add(rhs),
    ;

    /// Multiplication.
    fn mul(self, rhs: Self) -> (r: Self)
        ensures
            r == self.sp_mul(rhs),
    ;

    /// Additive inverse.
    fn neg(self) -> (r: Self)
        ensures
            r == self.sp_neg(),
    ;

    /// Whether this value is the additive identity.
    fn is_zero(&self) -> (r: bool)
        ensures
            r <==> *self == Self::sp_zero(),
    ;
}

/// Derived fact: multiplying by the additive identity yields it back.
pub proof fn lemma_mul_zero<T: Field>(a: T)
    ensures
        a.sp_mul(T::sp_zero()) == T::sp_zero(),
        T::sp_zero().sp_mul(a) == T::sp_zero(),
{
    let z = T::sp_zero();
    // By distributivity, 0*a == (0+0)*a == 0*a + 0*a; cancelling one summand
    // with its inverse leaves 0*a == 0.
    T::lemma_add_zero(z);
    T::lemma_distrib(z, z, a);
    T::lemma_mul_comm(a, z);
    let za = z.sp_mul(a);
    T::lemma_add_assoc(za, za, za.sp_neg());
    T::lemma_add_neg(za);
    T::lemma_add_zero(za);
    T::lemma_mul_comm(z, a);
}

/// A field with conjugation, an absolute value into a real companion type,
/// and square roots: what the norm and sesquilinear algorithms need.
/// Callers supply the implementing type.
pub trait ComplexField: Field {
    /// The real companion type that absolute values land in.
    type Real: Field;

    /// Mathematical conjugation.
    spec fn sp_conj(self) -> Self;

    /// Mathematical absolute value.
    spec fn sp_abs(self) -> Self::Real;

    /// Mathematical square root within the field.
    spec fn sp_sqrt(self) -> Self;

    /// Mathematical square root on the real companion type.
    spec fn sp_real_sqrt(x: Self::Real) -> Self::Real;

    proof fn lemma_conj_add(a: Self, b: Self)
        ensures
            a.sp_add(b).sp_conj() == a.sp_conj().sp_add(b.sp_conj()),
    ;

    proof fn lemma_conj_mul(a: Self, b: Self)
        ensures
            a.sp_mul(b).sp_conj() == a.sp_conj().sp_mul(b.sp_conj()),
    ;

    proof fn lemma_conj_conj(a: Self)
        ensures
            a.sp_conj().sp_conj() == a,
    ;

    proof fn lemma_conj_zero()
        ensures
            Self::sp_zero().sp_conj() == Self::sp_zero(),
    ;

    proof fn lemma_sqrt_zero()
        ensures
            Self::sp_zero().sp_sqrt() == Self::sp_zero(),
    ;

    /// Conjugation.
    fn conjugate(self) -> (r: Self)
        ensures
            r == self.sp_conj(),
    ;

    /// Absolute value.
    fn abs(self) -> (r: Self::Real)
        ensures
            r == self.sp_abs(),
    ;

    /// Square root.
    fn sqrt(self) -> (r: Self)
        ensures
            r == self.sp_sqrt(),
    ;

    /// Square root on the real companion type.
    fn real_sqrt(x: Self::Real) -> (r: Self::Real)
        ensures
            r == Self::sp_real_sqrt(x),
    ;
}

/// A self-conjugate ordered field: its own real companion, with the order
/// and square-root laws that ground the norm properties.
pub trait RealField: ComplexField<Real = Self> {
    /// The mathematical ordering of the implementing type.
    spec fn sp_le(self, rhs: Self) -> bool;

    proof fn lemma_conj_id(a: Self)
        ensures
            a.sp_conj() == a,
    ;

    proof fn lemma_sq_nonneg(a: Self)
        ensures
            Self::sp_zero().sp_le(a.sp_mul(a)),
    ;

    proof fn lemma_nonneg_add(a: Self, b: Self)
        requires
            Self::sp_zero().sp_le(a),
            Self::sp_zero().sp_le(b),
        ensures
            Self::sp_zero().sp_le(a.sp_add(b)),
    ;

    proof fn lemma_sqrt_scale(a: Self, x: Self)
        requires
            Self::sp_zero().sp_le(x),
        ensures
            a.sp_mul(a).sp_mul(x).sp_sqrt() == a.sp_abs().sp_mul(x.sp_sqrt()),
    ;
}

impl Field for u64 {
    open spec fn sp_add(self, rhs: u64) -> u64 {
        ((self + rhs) % 0x1_0000_0000_0000_0000) as u64
    }

    open spec fn sp_mul(self, rhs: u64) -> u64 {
        ((self * rhs) % 0x1_0000_0000_0000_0000) as u64
    }

    open spec fn sp_neg(self) -> u64 {
        ((0x1_0000_0000_0000_0000 - self) % 0x1_0000_0000_0000_0000) as u64
    }

    open spec fn sp_zero() -> u64 {
        0u64
    }

    proof fn lemma_add_comm(a: u64, b: u64) {
    }

    proof fn lemma_add_assoc(a: u64, b: u64, c: u64) {
        let m = 0x1_0000_0000_0000_0000int;
        vstd::arithmetic::div_mod::lemma_add_mod_noop(a + b, c as int, m);
        vstd::arithmetic::div_mod::lemma_add_mod_noop_right(a as int, b + c, m);
        vstd::arithmetic::div_mod::lemma_mod_twice(a + b + c, m);
    }

    proof fn lemma_add_zero(a: u64) {
        vstd::arithmetic::div_mod::lemma_small_mod(a as nat, 0x1_0000_0000_0000_0000nat);
    }

    proof fn lemma_add_neg(a: u64) {
        let m = 0x1_0000_0000_0000_0000int;
        if a == 0 {
            vstd::arithmetic::div_mod::lemma_small_mod(0nat, m as nat);
        } else {
            vstd::arithmetic::div_mod::lemma_small_mod((m - a) as nat, m as nat);
            vstd::arithmetic::div_mod::lemma_mod_self_0(m);
        }
    }

    proof fn lemma_mul_comm(a: u64, b: u64) {
    }

    proof fn lemma_mul_assoc(a: u64, b: u64, c: u64) {
        let m = 0x1_0000_0000_0000_0000int;
        vstd::arithmetic::div_mod::lemma_mul_mod_noop_left(a * b, c as int, m);
        vstd::arithmetic::div_mod::lemma_mul_mod_noop_right(a as int, b * c, m);
        vstd::arithmetic::mul::lemma_mul_is_associative(a as int, b as int, c as int);
    }

    proof fn lemma_distrib(a: u64, b: u64, c: u64) {
        let m = 0x1_0000_0000_0000_0000int;
        vstd::arithmetic::div_mod::lemma_mul_mod_noop_left(a + b, c as int, m);
        vstd::arithmetic::mul::lemma_mul_is_distributive_add_other_way(c as int, a as int, b as int);
        vstd::arithmetic::div_mod::lemma_add_mod_noop(a * c, b * c, m);
        vstd::arithmetic::div_mod::lemma_mod_twice(a * c + b * c, m);
    }

    fn zero() -> (r: u64) {
        0u64
    }

    fn add(self, rhs: u64) -> (r: u64) {
        proof {
            let m = 0x1_0000_0000_0000_0000int;
            if self + rhs < m {
                vstd::arithmetic::div_mod::lemma_small_mod((self + rhs) as nat, m as nat);
            } else {
                vstd::arithmetic::div_mod::lemma_mod_sub_multiples_vanish(self + rhs, m);
                vstd::arithmetic::div_mod::lemma_small_mod((self + rhs - m) as nat, m as nat);
            }
        }
        self.wrapping_add(rhs)
    }

    fn mul(self, rhs: u64) -> (r: u64) {
        self.wrapping_mul(rhs)
    }

    fn neg(self) -> (r: u64) {
        proof {
            let m = 0x1_0000_0000_0000_0000int;
            if self == 0 {
                vstd::arithmetic::div_mod::lemma_small_mod(0nat, m as nat);
            } else {
                vstd::arithmetic::div_mod::lemma_small_mod((m - self) as nat, m as nat);
            }
        }
        0u64.wrapping_sub(self)
    }

    fn is_zero(&self) -> (r: bool) {
        *self == 0u64
    }
}

} // verus!
