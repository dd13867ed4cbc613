//! The vector capability interface: dimension, indexed access,
//! zero-construction, and the default algorithms (norms, dot products)
//! expressed purely through `dim` and `get`.

use vstd::prelude::*;

use crate::algebra::{abs_seq, cdot_seq, conj_mul_seq, dot_seq, min_len, mul_seq, vec_sum, zero_seq};
use crate::algebra::lemma_vec_sum_push;
use crate::field::{ComplexField, Field};

verus! {

/// An ordered, fixed-length sequence of field elements. The dimension never
/// changes after creation.
pub trait Vector: Sized {
    type Elem: Field;

    /// The mathematical value: the ordered sequence of elements.
    spec fn model(&self) -> Seq<Self::Elem>;

    /// Which run-time dimensions this storage type can be constructed with.
    /// Run-time-sized storage admits any dimension; compile-time-sized
    /// storage admits exactly its type-level dimension.
    spec fn valid_dim(dim: usize) -> bool;

    /// Builds a vector of the given dimension with every element equal to the
    /// additive identity of the field.
    fn zero_vec(dim: usize) -> (r: Self)
        requires
            Self::valid_dim(dim),
        ensures
            r.model() == zero_seq::<Self::Elem>(dim as nat),
    ;

    /// The element count, constant for the lifetime of the value.
    fn dim(&self) -> (n: usize)
        ensures
            n == self.model().len(),
    ;

    /// Bounds-checked element access: absent exactly when `i` is out of range.
    fn get(&self, i: usize) -> (r: Option<&Self::Elem>)
        ensures
            i < self.model().len() ==> r.is_some() && *r.unwrap() == self.model()[i as int],
            i >= self.model().len() ==> r.is_none(),
    ;

    /// Ordinary vector norm squared: the sum of each element multiplied by
    /// itself.
    fn norm_sqr(&self) -> (r: Self::Elem)
        ensures
            r == dot_seq(self.model(), self.model()),
    {
        let n = self.dim();
        let mut acc = <Self::Elem as Field>::zero();
        let mut i: usize = 0;
        while i < n
            invariant
                n == self.model().len(),
                i <= n,
                acc == vec_sum(mul_seq(self.model().take(i as int), self.model().take(i as int))),
            decreases n - i,
        {
            if let Some(val) = self.get(i) {
                let ghost pre = mul_seq(self.model().take(i as int), self.model().take(i as int));
                let ghost e = self.model()[i as int].sp_mul(self.model()[i as int]);
                acc = acc.add((*val).mul(*val));
                proof {
                    assert(mul_seq(
                        self.model().take(i + 1),
                        self.model().take(i + 1),
                    ) =~= pre.push(e));
                    lemma_vec_sum_push(pre, e);
                }
            }
            i += 1;
        }
        proof {
            assert(self.model().take(n as int) =~= self.model());
        }
        acc
    }

    /// Ordinary vector norm: the square root of `norm_sqr`.
    fn norm(&self) -> (r: Self::Elem) where Self::Elem: ComplexField
        ensures
            r == dot_seq(self.model(), self.model()).sp_sqrt(),
    {
        self.norm_sqr().sqrt()
    }

    /// Sum of the absolute values of the elements, in the real companion
    /// type. Note: despite the name, this sums absolute values, not squared
    /// magnitudes; the contract states exactly that.
    fn cnorm_sqr(&self) -> (r: <Self::Elem as ComplexField>::Real) where Self::Elem: ComplexField
        ensures
            r == vec_sum(abs_seq(self.model())),
    {
        let n = self.dim();
        let mut acc = <<Self::Elem as ComplexField>::Real as Field>::zero();
        let mut i: usize = 0;
        while i < n
            invariant
                n == self.model().len(),
                i <= n,
                acc == vec_sum(abs_seq(self.model().take(i as int))),
            decreases n - i,
        {
            if let Some(val) = self.get(i) {
                let ghost pre = abs_seq(self.model().take(i as int));
                let ghost e = self.model()[i as int].sp_abs();
                acc = acc.add((*val).abs());
                proof {
                    assert(abs_seq(self.model().take(i + 1)) =~= pre.push(e));
                    lemma_vec_sum_push(pre, e);
                }
            }
            i += 1;
        }
        proof {
            assert(self.model().take(n as int) =~= self.model());
        }
        acc
    }

    /// Square root of `cnorm_sqr`, in the real companion type.
    fn cnorm(&self) -> (r: <Self::Elem as ComplexField>::Real) where Self::Elem: ComplexField
        ensures
            r == <Self::Elem as ComplexField>::sp_real_sqrt(vec_sum(abs_seq(self.model()))),
    {
        let s = self.cnorm_sqr();
        <Self::Elem as ComplexField>::real_sqrt(s)
    }

    /// Euclidean bilinear dot product: the sum of positionwise products over
    /// the overlapping prefix of the two vectors. Indices beyond the shorter
    /// vector's length contribute nothing.
    fn dot_euclid(&self, rhs: &Self) -> (r: Self::Elem)
        ensures
            r == dot_seq(self.model(), rhs.model()),
    {
        let a = self.dim();
        let b = rhs.dim();
        let n = if a <= b {
            a
        } else {
            b
        };
        let mut acc = <Self::Elem as Field>::zero();
        let mut i: usize = 0;
        while i < n
            invariant
                n == min_len(self.model(), rhs.model()),
                n <= self.model().len(),
                n <= rhs.model().len(),
                i <= n,
                acc == vec_sum(mul_seq(self.model().take(i as int), rhs.model().take(i as int))),
            decreases n - i,
        {
            if let (Some(l), Some(r)) = (self.get(i), rhs.get(i)) {
                let ghost pre = mul_seq(self.model().take(i as int), rhs.model().take(i as int));
                let ghost e = self.model()[i as int].sp_mul(rhs.model()[i as int]);
                acc = acc.add((*l).mul(*r));
                proof {
                    assert(mul_seq(
                        self.model().take(i + 1),
                        rhs.model().take(i + 1),
                    ) =~= pre.push(e));
                    lemma_vec_sum_push(pre, e);
                }
            }
            i += 1;
        }
        proof {
            assert(mul_seq(
                self.model().take(n as int),
                rhs.model().take(n as int),
            ) =~= mul_seq(self.model(), rhs.model()));
        }
        acc
    }

    /// Euclidean sesquilinear dot product: as `dot_euclid`, but the left
    /// operand contributes its conjugate before multiplying.
    fn cdot_euclid(&self, rhs: &Self) -> (r: Self::Elem) where Self::Elem: ComplexField
        ensures
            r == cdot_seq(self.model(), rhs.model()),
    {
        let a = self.dim();
        let b = rhs.dim();
        let n = if a <= b {
            a
        } else {
            b
        };
        let mut acc = <Self::Elem as Field>::zero();
        let mut i: usize = 0;
        while i < n
            invariant
                n == min_len(self.model(), rhs.model()),
                n <= self.model().len(),
                n <= rhs.model().len(),
                i <= n,
                acc == vec_sum(
                    conj_mul_seq(self.model().take(i as int), rhs.model().take(i as int)),
                ),
            decreases n - i,
        {
            if let (Some(l), Some(r)) = (self.get(i), rhs.get(i)) {
                let ghost pre = conj_mul_seq(
                    self.model().take(i as int),
                    rhs.model().take(i as int),
                );
                let ghost e = self.model()[i as int].sp_conj().sp_mul(rhs.model()[i as int]);
                acc = acc.add((*l).conjugate().mul(*r));
                proof {
                    assert(conj_mul_seq(
                        self.model().take(i + 1),
                        rhs.model().take(i + 1),
                    ) =~= pre.push(e));
                    lemma_vec_sum_push(pre, e);
                }
            }
            i += 1;
        }
        proof {
            assert(conj_mul_seq(
                self.model().take(n as int),
                rhs.model().take(n as int),
            ) =~= conj_mul_seq(self.model(), rhs.model()));
        }
        acc
    }
}

/// Cross-storage Euclidean dot product: as `Vector::dot_euclid`, but the two
/// operands may use different storage strategies over the same element type.
pub fn dot_euclid_mixed<U: Vector, V: Vector<Elem = <U as Vector>::Elem>>(lhs: &U, rhs: &V) -> (r:
    U::Elem)
    ensures
        r == dot_seq(lhs.model(), rhs.model()),
{
    let a = lhs.dim();
    let b = rhs.dim();
    let n = if a <= b {
        a
    } else {
        b
    };
    let mut acc = <U::Elem as Field>::zero();
    let mut i: usize = 0;
    while i < n
        invariant
            n == min_len(lhs.model(), rhs.model()),
            n <= lhs.model().len(),
            n <= rhs.model().len(),
            i <= n,
            acc == vec_sum(mul_seq(lhs.model().take(i as int), rhs.model().take(i as int))),
        decreases n - i,
    {
        if let (Some(l), Some(r)) = (lhs.get(i), rhs.get(i)) {
            let ghost pre = mul_seq(lhs.model().take(i as int), rhs.model().take(i as int));
            let ghost e = lhs.model()[i as int].sp_mul(rhs.model()[i as int]);
            acc = acc.add((*l).mul(*r));
            proof {
                assert(mul_seq(lhs.model().take(i + 1), rhs.model().take(i + 1)) =~= pre.push(e));
                lemma_vec_sum_push(pre, e);
            }
        }
        i += 1;
    }
    proof {
        assert(mul_seq(lhs.model().take(n as int), rhs.model().take(n as int)) =~= mul_seq(
            lhs.model(),
            rhs.model(),
        ));
    }
    acc
}

/// Cross-storage sesquilinear dot product: as `Vector::cdot_euclid`, but the
/// two operands may use different storage strategies over the same element
/// type.
pub fn cdot_euclid_mixed<U, V>(lhs: &U, rhs: &V) -> (r: U::Elem) where
    U: Vector,
    V: Vector<Elem = <U as Vector>::Elem>,
    U::Elem: ComplexField,

    ensures
        r == cdot_seq(lhs.model(), rhs.model()),
{
    let a = lhs.dim();
    let b = rhs.dim();
    let n = if a <= b {
        a
    } else {
        b
    };
    let mut acc = <U::Elem as Field>::zero();
    let mut i: usize = 0;
    while i < n
        invariant
            n == min_len(lhs.model(), rhs.model()),
            n <= lhs.model().len(),
            n <= rhs.model().len(),
            i <= n,
            acc == vec_sum(conj_mul_seq(lhs.model().take(i as int), rhs.model().take(i as int))),
        decreases n - i,
    {
        if let (Some(l), Some(r)) = (lhs.get(i), rhs.get(i)) {
            let ghost pre = conj_mul_seq(lhs.model().take(i as int), rhs.model().take(i as int));
            let ghost e = lhs.model()[i as int].sp_conj().sp_mul(rhs.model()[i as int]);
            acc = acc.add((*l).conjugate().mul(*r));
            proof {
                assert(conj_mul_seq(
                    lhs.model().take(i + 1),
                    rhs.model().take(i + 1),
                ) =~= pre.push(e));
                lemma_vec_sum_push(pre, e);
            }
        }
        i += 1;
    }
    proof {
        assert(conj_mul_seq(lhs.model().take(n as int), rhs.model().take(n as int)) =~= conj_mul_seq(
            lhs.model(),
            rhs.model(),
        ));
    }
    acc
}

/// Indexed write access for vectors.
pub trait VectorMut: Vector {
    /// Bounds-checked mutable element access: absent exactly when `i` is out
    /// of range, in which case the vector is left unchanged.
    fn get_mut(&mut self, i: usize) -> (r: Option<&mut Self::Elem>)
        ensures
            i < old(self).model().len() ==> r.is_some() && *r.unwrap() == old(self).model()[i as int]
                && final(self).model() == old(self).model().update(i as int, *final(r.unwrap())),
            i >= old(self).model().len() ==> r.is_none() && final(self).model() == old(
                self,
            ).model(),
    ;
}

/// Direct positional read access, for code that has already validated bounds.
pub trait FullVector: Vector {
    /// Direct indexing. Out-of-range access is a programming error, excluded
    /// by the precondition.
    fn index(&self, i: usize) -> (r: &Self::Elem)
        requires
            i < self.model().len(),
        ensures
            *r == self.model()[i as int],
    ;
}

/// Direct positional write access, for code that has already validated bounds.
pub trait FullVectorMut: FullVector + VectorMut {
    /// Direct mutable indexing. Out-of-range access is a programming error,
    /// excluded by the precondition.
    fn index_mut(&mut self, i: usize) -> (r: &mut Self::Elem)
        requires
            i < old(self).model().len(),
        ensures
            *r == old(self).model()[i as int],
            final(self).model() == old(self).model().update(i as int, *final(r)),
    ;
}

} // verus!
