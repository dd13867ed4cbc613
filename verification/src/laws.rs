//! The algebraic laws of the vector operations, stated over the models that
//! the containers' contracts use and proved from the field laws alone.

use vstd::prelude::*;

use crate::algebra::{
    add_seq, cdot_seq, conj_mul_seq, dot_seq, lemma_vec_sum_scale, lemma_vec_sum_zero, mul_seq,
    neg_seq, scale_seq, vec_sum, zero_seq,
};
use crate::field::{lemma_mul_zero, ComplexField, Field, RealField};
use crate::matrix::Matrix;

verus! {

/// Adding the elementwise additive inverse of a vector yields the all-zero
/// vector of the same length.
pub proof fn lemma_add_neg_is_zero<T: Field>(s: Seq<T>)
    ensures
        add_seq(s, neg_seq(s)) == zero_seq::<T>(s.len()),
{
    assert forall|i: int| 0 <= i < s.len() implies add_seq(s, neg_seq(s))[i] == T::sp_zero() by {
        T::lemma_add_neg(s[i]);
    }
    assert(add_seq(s, neg_seq(s)) =~= zero_seq::<T>(s.len()));
}

/// Elementwise addition of equal-length vectors is commutative.
pub proof fn lemma_add_comm_vec<T: Field>(s: Seq<T>, t: Seq<T>)
    requires
        s.len() == t.len(),
    ensures
        add_seq(s, t) == add_seq(t, s),
{
    assert forall|i: int| 0 <= i < s.len() implies add_seq(s, t)[i] == add_seq(t, s)[i] by {
        T::lemma_add_comm(s[i], t[i]);
    }
    assert(add_seq(s, t) =~= add_seq(t, s));
}

/// Elementwise addition of equal-length vectors is associative.
pub proof fn lemma_add_assoc_vec<T: Field>(s: Seq<T>, t: Seq<T>, u: Seq<T>)
    requires
        s.len() == t.len(),
        t.len() == u.len(),
    ensures
        add_seq(add_seq(s, t), u) == add_seq(s, add_seq(t, u)),
{
    assert forall|i: int|
        0 <= i < s.len() implies add_seq(add_seq(s, t), u)[i] == add_seq(s, add_seq(t, u))[i] by {
        T::lemma_add_assoc(s[i], t[i], u[i]);
    }
    assert(add_seq(add_seq(s, t), u) =~= add_seq(s, add_seq(t, u)));
}

/// Scaling distributes over elementwise addition: `(v + w) * c` equals
/// `(v * c) + (w * c)` for equal-length vectors.
pub proof fn lemma_scale_distrib<T: Field>(s: Seq<T>, t: Seq<T>, c: T)
    requires
        s.len() == t.len(),
    ensures
        scale_seq(add_seq(s, t), c) == add_seq(scale_seq(s, c), scale_seq(t, c)),
{
    assert forall|i: int|
        0 <= i < s.len() implies scale_seq(add_seq(s, t), c)[i] == add_seq(
        scale_seq(s, c),
        scale_seq(t, c),
    )[i] by {
        T::lemma_distrib(s[i], t[i], c);
    }
    assert(scale_seq(add_seq(s, t), c) =~= add_seq(scale_seq(s, c), scale_seq(t, c)));
}

/// Adding the elementwise additive inverse of a matrix yields the all-zero
/// matrix: when `n` holds the entries of `-m` and `z` those of `m + n`,
/// every entry of `z` is zero.
pub proof fn lemma_mat_add_neg_is_zero<M: Matrix>(m: M, n: M, z: M)
    requires
        n.rows() == m.rows() && n.cols() == m.cols(),
        z.rows() == m.rows() && z.cols() == m.cols(),
        forall|i: int, j: int|
            0 <= i < m.rows() && 0 <= j < m.cols() ==> n.at(i, j) == m.at(i, j).sp_neg(),
        forall|i: int, j: int|
            0 <= i < m.rows() && 0 <= j < m.cols() ==> z.at(i, j) == m.at(i, j).sp_add(n.at(i, j)),
    ensures
        forall|i: int, j: int|
            0 <= i < m.rows() && 0 <= j < m.cols() ==> z.at(i, j) == <M::Elem as Field>::sp_zero(),
{
    assert forall|i: int, j: int|
        0 <= i < m.rows() && 0 <= j < m.cols() implies z.at(i, j)
        == <M::Elem as Field>::sp_zero() by {
        <M::Elem as Field>::lemma_add_neg(m.at(i, j));
    }
}

/// Elementwise matrix addition is commutative: when `s` holds the entries of
/// `a + b` and `t` those of `b + a`, the two agree entry for entry.
pub proof fn lemma_mat_add_comm<M: Matrix>(a: M, b: M, s: M, t: M)
    requires
        b.rows() == a.rows() && b.cols() == a.cols(),
        forall|i: int, j: int|
            0 <= i < a.rows() && 0 <= j < a.cols() ==> s.at(i, j) == a.at(i, j).sp_add(b.at(i, j)),
        forall|i: int, j: int|
            0 <= i < a.rows() && 0 <= j < a.cols() ==> t.at(i, j) == b.at(i, j).sp_add(a.at(i, j)),
    ensures
        forall|i: int, j: int|
            0 <= i < a.rows() && 0 <= j < a.cols() ==> s.at(i, j) == t.at(i, j),
{
    assert forall|i: int, j: int|
        0 <= i < a.rows() && 0 <= j < a.cols() implies s.at(i, j) == t.at(i, j) by {
        <M::Elem as Field>::lemma_add_comm(a.at(i, j), b.at(i, j));
    }
}

/// Elementwise matrix addition is associative: when `ab` and `bc` hold the
/// entries of `a + b` and `b + c`, and `s` and `t` those of `ab + c` and
/// `a + bc`, the two agree entry for entry.
pub proof fn lemma_mat_add_assoc<M: Matrix>(a: M, b: M, c: M, ab: M, bc: M, s: M, t: M)
    requires
        forall|i: int, j: int|
            0 <= i < a.rows() && 0 <= j < a.cols() ==> ab.at(i, j) == a.at(i, j).sp_add(
                b.at(i, j),
            ),
        forall|i: int, j: int|
            0 <= i < a.rows() && 0 <= j < a.cols() ==> bc.at(i, j) == b.at(i, j).sp_add(
                c.at(i, j),
            ),
        forall|i: int, j: int|
            0 <= i < a.rows() && 0 <= j < a.cols() ==> s.at(i, j) == ab.at(i, j).sp_add(
                c.at(i, j),
            ),
        forall|i: int, j: int|
            0 <= i < a.rows() && 0 <= j < a.cols() ==> t.at(i, j) == a.at(i, j).sp_add(
                bc.at(i, j),
            ),
    ensures
        forall|i: int, j: int|
            0 <= i < a.rows() && 0 <= j < a.cols() ==> s.at(i, j) == t.at(i, j),
{
    assert forall|i: int, j: int|
        0 <= i < a.rows() && 0 <= j < a.cols() implies s.at(i, j) == t.at(i, j) by {
        <M::Elem as Field>::lemma_add_assoc(a.at(i, j), b.at(i, j), c.at(i, j));
    }
}

/// The Euclidean dot product is symmetric.
pub proof fn lemma_dot_comm<T: Field>(s: Seq<T>, t: Seq<T>)
    ensures
        dot_seq(s, t) == dot_seq(t, s),
{
    assert forall|i: int|
        0 <= i < mul_seq(s, t).len() implies mul_seq(s, t)[i] == mul_seq(t, s)[i] by {
        T::lemma_mul_comm(s[i], t[i]);
    }
    assert(mul_seq(s, t) =~= mul_seq(t, s));
}

/// Conjugation of every element of a sequence.
pub open spec fn conj_seq<T: ComplexField>(s: Seq<T>) -> Seq<T> {
    Seq::new(s.len(), |i: int| s[i].sp_conj())
}

/// Conjugation commutes with summation.
pub proof fn lemma_vec_sum_conj<T: ComplexField>(s: Seq<T>)
    ensures
        vec_sum(s).sp_conj() == vec_sum(conj_seq(s)),
    decreases s.len(),
{
    if s.len() == 0 {
        T::lemma_conj_zero();
    } else {
        let s0 = s.drop_last();
        assert(conj_seq(s).drop_last() =~= conj_seq(s0));
        lemma_vec_sum_conj(s0);
        T::lemma_conj_add(vec_sum(s0), s.last());
    }
}

/// The sesquilinear dot product is conjugate-symmetric:
/// `cdot_euclid(v, w)` equals the conjugate of `cdot_euclid(w, v)`.
pub proof fn lemma_cdot_conj_sym<T: ComplexField>(s: Seq<T>, t: Seq<T>)
    ensures
        cdot_seq(s, t) == cdot_seq(t, s).sp_conj(),
{
    lemma_vec_sum_conj(conj_mul_seq(t, s));
    assert forall|i: int|
        0 <= i < conj_mul_seq(s, t).len() implies conj_seq(conj_mul_seq(t, s))[i] == conj_mul_seq(
        s,
        t,
    )[i] by {
        // conj(conj(t) * s) == conj(s) * t
        T::lemma_conj_mul(t[i].sp_conj(), s[i]);
        T::lemma_conj_conj(t[i]);
        T::lemma_mul_comm(t[i], s[i].sp_conj());
    }
    assert(conj_seq(conj_mul_seq(t, s)) =~= conj_mul_seq(s, t));
}

/// Over a self-conjugate field the sesquilinear dot product coincides with
/// the Euclidean one.
pub proof fn lemma_cdot_real<T: RealField>(s: Seq<T>, t: Seq<T>)
    ensures
        cdot_seq(s, t) == dot_seq(s, t),
{
    assert forall|i: int|
        0 <= i < conj_mul_seq(s, t).len() implies conj_mul_seq(s, t)[i] == mul_seq(s, t)[i] by {
        T::lemma_conj_id(s[i]);
    }
    assert(conj_mul_seq(s, t) =~= mul_seq(s, t));
}

/// The squared norm of a vector over an ordered field is nonnegative.
pub proof fn lemma_norm_sqr_nonneg<T: RealField>(s: Seq<T>)
    ensures
        T::sp_zero().sp_le(dot_seq(s, s)),
    decreases s.len(),
{
    if s.len() == 0 {
        lemma_mul_zero::<T>(T::sp_zero());
        T::lemma_sq_nonneg(T::sp_zero());
    } else {
        let s0 = s.drop_last();
        assert(mul_seq(s, s).drop_last() =~= mul_seq(s0, s0));
        lemma_norm_sqr_nonneg(s0);
        T::lemma_sq_nonneg(s.last());
        T::lemma_nonneg_add(dot_seq(s0, s0), s.last().sp_mul(s.last()));
    }
}

/// The norm of the all-zero vector is zero.
pub proof fn lemma_norm_zero<T: ComplexField>(n: nat)
    ensures
        dot_seq(zero_seq::<T>(n), zero_seq::<T>(n)).sp_sqrt() == T::sp_zero(),
{
    assert forall|i: int|
        0 <= i < n implies mul_seq(zero_seq::<T>(n), zero_seq::<T>(n))[i] == T::sp_zero() by {
        lemma_mul_zero::<T>(T::sp_zero());
    }
    assert(mul_seq(zero_seq::<T>(n), zero_seq::<T>(n)) =~= zero_seq::<T>(n));
    lemma_vec_sum_zero::<T>(n);
    T::lemma_sqrt_zero();
}

/// Scaling a vector scales its norm by the absolute value of the scalar:
/// `norm(v * c) == abs(c) * norm(v)`.
pub proof fn lemma_norm_scale<T: RealField>(s: Seq<T>, c: T)
    ensures
        dot_seq(scale_seq(s, c), scale_seq(s, c)).sp_sqrt() == c.sp_abs().sp_mul(
            dot_seq(s, s).sp_sqrt(),
        ),
{
    let cc = c.sp_mul(c);
    assert forall|i: int|
        0 <= i < s.len() implies mul_seq(scale_seq(s, c), scale_seq(s, c))[i] == scale_seq(
        mul_seq(s, s),
        cc,
    )[i] by {
        let a = s[i];
        let ac = a.sp_mul(c);
        // (a*c)*(a*c) == a*((a*c)*c) == a*(a*(c*c)) == (a*a)*(c*c)
        T::lemma_mul_assoc(a, c, ac);
        T::lemma_mul_comm(c, ac);
        T::lemma_mul_assoc(a, c, c);
        T::lemma_mul_assoc(a, a, cc);
    }
    assert(mul_seq(scale_seq(s, c), scale_seq(s, c)) =~= scale_seq(mul_seq(s, s), cc));
    lemma_vec_sum_scale(mul_seq(s, s), cc);
    lemma_norm_sqr_nonneg(s);
    T::lemma_mul_comm(dot_seq(s, s), cc);
    T::lemma_sqrt_scale(c, dot_seq(s, s));
}

} // verus!
