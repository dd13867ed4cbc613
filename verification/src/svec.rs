//! Static vector: a fixed-size array whose dimension is a compile-time
//! constant. No heap allocation and no run-time bounds bookkeeping.

use vstd::prelude::*;

use crate::algebra::{add_seq, neg_seq, scale_seq, zero_seq};
use crate::dvec::DVector;
use crate::field::Field;
use crate::vector::{FullVector, FullVectorMut, Vector, VectorMut};

verus! {

broadcast use vstd::array::group_array_axioms;

/// A vector of compile-time dimension `DIM` with arbitrary field element
/// type.
#[derive(Clone, Copy)]
pub struct SVector<T, const DIM: usize> {
    data: [T; DIM],
}

impl<T: Field, const DIM: usize> SVector<T, DIM> {
    /// Builds the all-zero vector.
    pub fn zero() -> (r: Self)
        ensures
            r.model() == zero_seq::<T>(DIM as nat),
    {
        let z = T::zero();
        let r = SVector { data: [z; DIM] };
        proof {
            assert(r.model() =~= zero_seq::<T>(DIM as nat));
        }
        r
    }

    /// Whether every element is the additive identity.
    pub fn is_zero(&self) -> (r: bool)
        ensures
            r <==> self.model() == zero_seq::<T>(DIM as nat),
    {
        let mut i: usize = 0;
        while i < DIM
            invariant
                i <= DIM,
                forall|k: int| 0 <= k < i ==> self.model()[k] == T::sp_zero(),
            decreases DIM - i,
        {
            let x = self.data[i];
            if !x.is_zero() {
                proof {
                    assert(self.model()[i as int] != T::sp_zero());
                    assert(self.model() != zero_seq::<T>(DIM as nat));
                }
                return false;
            }
            i += 1;
        }
        proof {
            assert(self.model() =~= zero_seq::<T>(DIM as nat));
        }
        true
    }

    /// Builds a vector owning the given elements, in order.
    pub fn from_array(data: [T; DIM]) -> (r: Self)
        ensures
            r.model() == data@,
    {
        SVector { data }
    }

    /// Lossless conversion into a dynamic vector: the element sequence is
    /// preserved exactly, in order.
    pub fn into_dvector(self) -> (r: DVector<T>)
        ensures
            r.model() == self.model(),
    {
        let mut data: Vec<T> = Vec::new();
        let mut i: usize = 0;
        while i < DIM
            invariant
                i <= DIM,
                data@ =~= self.model().take(i as int),
            decreases DIM - i,
        {
            data.push(self.data[i]);
            i += 1;
        }
        proof {
            assert(data@ =~= self.model());
        }
        DVector::from_vec(data)
    }

    /// Maps every element to its additive inverse.
    pub fn neg(self) -> (r: Self)
        ensures
            r.model() == neg_seq(self.model()),
    {
        let mut v = self;
        let mut i: usize = 0;
        while i < DIM
            invariant
                i <= DIM,
                forall|k: int| 0 <= k < i ==> v.data@[k] == self.data@[k].sp_neg(),
                forall|k: int| i <= k < DIM ==> v.data@[k] == self.data@[k],
            decreases DIM - i,
        {
            let x = v.data[i];
            v.data[i] = x.neg();
            i += 1;
        }
        proof {
            assert(v.model() =~= neg_seq(self.model()));
        }
        v
    }

    /// Scales every element by the given scalar, in place.
    pub fn mul_assign(&mut self, rhs: T)
        ensures
            final(self).model() == scale_seq(old(self).model(), rhs),
    {
        let mut i: usize = 0;
        while i < DIM
            invariant
                i <= DIM,
                forall|k: int| 0 <= k < i ==> self.data@[k] == old(self).data@[k].sp_mul(rhs),
                forall|k: int| i <= k < DIM ==> self.data@[k] == old(self).data@[k],
            decreases DIM - i,
        {
            let x = self.data[i];
            self.data[i] = x.mul(rhs);
            i += 1;
        }
        proof {
            assert(self.model() =~= scale_seq(old(self).model(), rhs));
        }
    }

    /// Scales every element by the given scalar.
    pub fn mul(self, rhs: T) -> (r: Self)
        ensures
            r.model() == scale_seq(self.model(), rhs),
    {
        let mut v = self;
        v.mul_assign(rhs);
        v
    }

    /// Adds `rhs` elementwise, in place. The dimensions match by type, so no
    /// mismatch case exists.
    pub fn add_assign(&mut self, rhs: &Self)
        ensures
            final(self).model() == add_seq(old(self).model(), rhs.model()),
    {
        let mut i: usize = 0;
        while i < DIM
            invariant
                i <= DIM,
                forall|k: int|
                    0 <= k < i ==> self.data@[k] == old(self).data@[k].sp_add(rhs.data@[k]),
                forall|k: int| i <= k < DIM ==> self.data@[k] == old(self).data@[k],
            decreases DIM - i,
        {
            let x = self.data[i];
            self.data[i] = x.add(rhs.data[i]);
            i += 1;
        }
        proof {
            assert(self.model() =~= add_seq(old(self).model(), rhs.model()));
        }
    }

    /// Adds `rhs` elementwise.
    pub fn add(self, rhs: &Self) -> (r: Self)
        ensures
            r.model() == add_seq(self.model(), rhs.model()),
    {
        let mut v = self;
        v.add_assign(rhs);
        v
    }
}

/// The model of a static vector always has exactly the type-level length.
pub broadcast proof fn lemma_svec_len<T: Field, const DIM: usize>(v: SVector<T, DIM>)
    ensures
        (#[trigger] v.model()).len() == DIM,
{
}

impl<T: Field, const DIM: usize> Vector for SVector<T, DIM> {
    type Elem = T;

    closed spec fn model(&self) -> Seq<T> {
        self.data@
    }

    /// Only the compile-time dimension itself is a valid run-time dimension.
    open spec fn valid_dim(dim: usize) -> bool {
        dim == DIM
    }

    fn zero_vec(dim: usize) -> (r: Self) {
        Self::zero()
    }

    fn dim(&self) -> (n: usize) {
        DIM
    }

    fn get(&self, i: usize) -> (r: Option<&T>) {
        if i >= DIM {
            None
        } else {
            Some(&self.data[i])
        }
    }
}

impl<T: Field, const DIM: usize> VectorMut for SVector<T, DIM> {
    fn get_mut(&mut self, i: usize) -> (r: Option<&mut T>) {
        if i >= DIM {
            None
        } else {
            Some(&mut self.data[i])
        }
    }
}

impl<T: Field, const DIM: usize> FullVector for SVector<T, DIM> {
    fn index(&self, i: usize) -> (r: &T) {
        &self.data[i]
    }
}

impl<T: Field, const DIM: usize> FullVectorMut for SVector<T, DIM> {
    fn index_mut(&mut self, i: usize) -> (r: &mut T) {
        &mut self.data[i]
    }
}

} // verus!
