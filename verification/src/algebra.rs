//! Mathematical models for the containers: sequences of field elements and
//! the elementwise operations and sums that the contracts are stated over.

use vstd::prelude::*;

use crate::field::ComplexField;
use crate::field::Field;
use crate::field::lemma_mul_zero;

verus! {

/// The all-zero sequence of a given length.
pub open spec fn zero_seq<T: Field>(n: nat) -> Seq<T> {
    Seq::new(n, |i: int| T::sp_zero())
}

/// Elementwise additive inverse.
pub open spec fn neg_seq<T: Field>(s: Seq<T>) -> Seq<T> {
    Seq::new(s.len(), |i: int| s[i].sp_neg())
}

/// Elementwise scaling by a scalar on the right.
pub open spec fn scale_seq<T: Field>(s: Seq<T>, c: T) -> Seq<T> {
    Seq::new(s.len(), |i: int| s[i].sp_mul(c))
}

/// Length of the overlapping prefix of two sequences.
pub open spec fn min_len<T>(s: Seq<T>, t: Seq<T>) -> nat {
    if s.len() <= t.len() {
        s.len()
    } else {
        t.len()
    }
}

/// Elementwise sum over the overlapping prefix.
pub open spec fn add_seq<T: Field>(s: Seq<T>, t: Seq<T>) -> Seq<T> {
    Seq::new(min_len(s, t), |i: int| s[i].sp_add(t[i]))
}

/// Elementwise product over the overlapping prefix.
pub open spec fn mul_seq<T: Field>(s: Seq<T>, t: Seq<T>) -> Seq<T> {
    Seq::new(min_len(s, t), |i: int| s[i].sp_mul(t[i]))
}

/// Left-fold sum of a sequence of field elements.
pub open spec fn vec_sum<T: Field>(s: Seq<T>) -> T
    decreases s.len(),
{
    if s.len() == 0 {
        T::sp_zero()
    } else {
        vec_sum(s.drop_last()).sp_add(s.last())
    }
}

/// Euclidean dot product: sum of positionwise products over the overlapping
/// prefix, no conjugation.
pub open spec fn dot_seq<T: Field>(s: Seq<T>, t: Seq<T>) -> T {
    vec_sum(mul_seq(s, t))
}

/// Elementwise absolute value, into the real companion type.
pub open spec fn abs_seq<T: ComplexField>(s: Seq<T>) -> Seq<T::Real> {
    Seq::new(s.len(), |i: int| s[i].sp_abs())
}

/// Conjugate of the left element times the right element, over the
/// overlapping prefix.
pub open spec fn conj_mul_seq<T: ComplexField>(s: Seq<T>, t: Seq<T>) -> Seq<T> {
    Seq::new(min_len(s, t), |i: int| s[i].sp_conj().sp_mul(t[i]))
}

/// Sesquilinear dot product: the left operand contributes its conjugate.
pub open spec fn cdot_seq<T: ComplexField>(s: Seq<T>, t: Seq<T>) -> T {
    vec_sum(conj_mul_seq(s, t))
}

pub proof fn lemma_vec_sum_push<T: Field>(s: Seq<T>, e: T)
    ensures
        vec_sum(s.push(e)) == vec_sum(s).sp_add(e),
{
    assert(s.push(e).drop_last() =~= s);
}

/// A sum of zeros is zero.
pub proof fn lemma_vec_sum_zero<T: Field>(n: nat)
    ensures
        vec_sum(zero_seq::<T>(n)) == T::sp_zero(),
    decreases n,
{
    if n == 0 {
    } else {
        assert(zero_seq::<T>(n).drop_last() =~= zero_seq::<T>((n - 1) as nat));
        lemma_vec_sum_zero::<T>((n - 1) as nat);
        T::lemma_add_zero(T::sp_zero());
    }
}

/// Summation commutes with elementwise addition of equal-length sequences.
pub proof fn lemma_vec_sum_add<T: Field>(s: Seq<T>, t: Seq<T>)
    requires
        s.len() == t.len(),
    ensures
        vec_sum(add_seq(s, t)) == vec_sum(s).sp_add(vec_sum(t)),
    decreases s.len(),
{
    if s.len() == 0 {
        T::lemma_add_zero(T::sp_zero());
    } else {
        let s0 = s.drop_last();
        let t0 = t.drop_last();
        assert(add_seq(s, t).drop_last() =~= add_seq(s0, t0));
        lemma_vec_sum_add(s0, t0);
        // ((A + B) + (a + b)) == ((A + a) + (B + b)) by shuffling
        let va = vec_sum(s0);
        let vb = vec_sum(t0);
        let a = s.last();
        let b = t.last();
        T::lemma_add_assoc(va.sp_add(vb), a, b);
        T::lemma_add_assoc(va, vb, a);
        T::lemma_add_comm(vb, a);
        T::lemma_add_assoc(va, a, vb);
        T::lemma_add_assoc(va.sp_add(a), vb, b);
    }
}

/// Elementwise scaling by a scalar on the left.
pub open spec fn lscale_seq<T: Field>(s: Seq<T>, c: T) -> Seq<T> {
    Seq::new(s.len(), |i: int| c.sp_mul(s[i]))
}

/// Scaling on the left distributes over the sum.
pub proof fn lemma_vec_sum_scale_left<T: Field>(s: Seq<T>, c: T)
    ensures
        vec_sum(lscale_seq(s, c)) == c.sp_mul(vec_sum(s)),
    decreases s.len(),
{
    if s.len() == 0 {
        lemma_mul_zero::<T>(c);
    } else {
        let s0 = s.drop_last();
        assert(lscale_seq(s, c).drop_last() =~= lscale_seq(s0, c));
        lemma_vec_sum_scale_left(s0, c);
        let va = vec_sum(s0);
        let a = s.last();
        T::lemma_mul_comm(c, va.sp_add(a));
        T::lemma_distrib(va, a, c);
        T::lemma_mul_comm(va, c);
        T::lemma_mul_comm(a, c);
    }
}

/// The row sums and the column sums of a rectangular grid add to the same
/// total.
pub proof fn lemma_vec_sum_swap<T: Field>(m: Seq<Seq<T>>, w: nat)
    requires
        forall|i: int| 0 <= i < m.len() ==> (#[trigger] m[i]).len() == w,
    ensures
        vec_sum(Seq::new(m.len(), |i: int| vec_sum(m[i]))) == vec_sum(
            Seq::new(w, |j: int| vec_sum(Seq::new(m.len(), |i: int| m[i][j]))),
        ),
    decreases m.len(),
{
    let rows = Seq::new(m.len(), |i: int| vec_sum(m[i]));
    let colsm = Seq::new(w, |j: int| vec_sum(Seq::new(m.len(), |i: int| m[i][j])));
    if m.len() == 0 {
        assert forall|j: int| 0 <= j < w implies colsm[j] == T::sp_zero() by {
            assert(Seq::new(m.len(), |i: int| m[i][j]) =~= Seq::<T>::empty());
        }
        assert(colsm =~= zero_seq::<T>(w));
        lemma_vec_sum_zero::<T>(w);
    } else {
        let m0 = m.drop_last();
        let r = m.last();
        let rows0 = Seq::new(m0.len(), |i: int| vec_sum(m0[i]));
        let colsm0 = Seq::new(w, |j: int| vec_sum(Seq::new(m0.len(), |i: int| m0[i][j])));
        assert(rows.drop_last() =~= rows0);
        lemma_vec_sum_swap(m0, w);
        assert forall|j: int| 0 <= j < w implies colsm[j] == colsm0[j].sp_add(r[j]) by {
            let cj = Seq::new(m.len(), |i: int| m[i][j]);
            let cj0 = Seq::new(m0.len(), |i: int| m0[i][j]);
            assert(cj.drop_last() =~= cj0);
            assert(cj.last() == r[j]);
        }
        assert(colsm =~= add_seq(colsm0, r));
        lemma_vec_sum_add(colsm0, r);
    }
}

/// Scaling on the right distributes over the sum.
pub proof fn lemma_vec_sum_scale<T: Field>(s: Seq<T>, c: T)
    ensures
        vec_sum(scale_seq(s, c)) == vec_sum(s).sp_mul(c),
    decreases s.len(),
{
    if s.len() == 0 {
        lemma_mul_zero::<T>(c);
        T::lemma_mul_comm(T::sp_zero(), c);
    } else {
        let s0 = s.drop_last();
        assert(scale_seq(s, c).drop_last() =~= scale_seq(s0, c));
        lemma_vec_sum_scale(s0, c);
        T::lemma_distrib(vec_sum(s0), s.last(), c);
    }
}

} // verus!
