//! Dynamic vector: heap-allocated buffer whose dimension is chosen at run
//! time and fixed thereafter.

use vstd::prelude::*;

use crate::algebra::{add_seq, neg_seq, scale_seq, zero_seq};
use crate::error::LinError;
use crate::field::Field;
use crate::vector::{FullVector, FullVectorMut, Vector, VectorMut};

verus! {

/// A dynamically sized vector with arbitrary field element type.
pub struct DVector<T> {
    data: Vec<T>,
}

impl<T: Field> DVector<T> {
    /// Builds a vector owning the given elements, in order.
    pub fn from_vec(data: Vec<T>) -> (r: Self)
        ensures
            r.model() == data@,
    {
        DVector { data }
    }

    /// Maps every element to its additive inverse.
    pub fn neg(self) -> (r: Self)
        ensures
            r.model() == neg_seq(self.model()),
    {
        let mut v = self;
        let n = v.data.len();
        let mut i: usize = 0;
        while i < n
            invariant
                n == v.data.len(),
                i <= n,
                forall|k: int| 0 <= k < i ==> v.data@[k] == self.model()[k].sp_neg(),
                forall|k: int| i <= k < n ==> v.data@[k] == self.model()[k],
            decreases n - i,
        {
            let x = v.data[i];
            v.data[i] = x.neg();
            i += 1;
        }
        proof {
            assert(v.data@ =~= neg_seq(self.model()));
        }
        v
    }

    /// Scales every element by the given scalar, in place.
    pub fn mul_assign(&mut self, rhs: T)
        ensures
            final(self).model() == scale_seq(old(self).model(), rhs),
    {
        let n = self.data.len();
        let mut i: usize = 0;
        while i < n
            invariant
                n == self.data.len(),
                i <= n,
                forall|k: int| 0 <= k < i ==> self.data@[k] == old(self).model()[k].sp_mul(rhs),
                forall|k: int| i <= k < n ==> self.data@[k] == old(self).model()[k],
            decreases n - i,
        {
            let x = self.data[i];
            self.data[i] = x.mul(rhs);
            i += 1;
        }
        proof {
            assert(self.data@ =~= scale_seq(old(self).model(), rhs));
        }
    }

    /// Scales every element by the given scalar.
    pub fn mul(self, rhs: T) -> (r: Self)
        ensures
            r.model() == scale_seq(self.model(), rhs),
    {
        let mut v = self;
        v.mul_assign(rhs);
        v
    }

    /// Adds `rhs` elementwise, in place. Operands of different dimensions are
    /// rejected and the vector is left unchanged.
    pub fn add_assign(&mut self, rhs: &Self) -> (r: Result<(), LinError>)
        ensures
            old(self).model().len() == rhs.model().len() ==> r is Ok && final(self).model()
                == add_seq(old(self).model(), rhs.model()),
            old(self).model().len() != rhs.model().len() ==> (r matches Err(
                LinError::DimensionMismatch { left_dim, right_dim },
            ) && left_dim == old(self).model().len() && right_dim == rhs.model().len()
                && final(self).model() == old(self).model()),
    {
        let n = self.data.len();
        if n != rhs.data.len() {
            return Err(
                LinError::DimensionMismatch { left_dim: n, right_dim: rhs.data.len() },
            );
        }
        let mut i: usize = 0;
        while i < n
            invariant
                n == self.data.len(),
                n == rhs.data.len(),
                i <= n,
                forall|k: int|
                    0 <= k < i ==> self.data@[k] == old(self).model()[k].sp_add(rhs.model()[k]),
                forall|k: int| i <= k < n ==> self.data@[k] == old(self).model()[k],
            decreases n - i,
        {
            let x = self.data[i];
            self.data[i] = x.add(rhs.data[i]);
            i += 1;
        }
        proof {
            assert(self.data@ =~= add_seq(old(self).model(), rhs.model()));
        }
        Ok(())
    }

    /// Adds `rhs` elementwise. Operands of different dimensions are rejected
    /// with a `DimensionMismatch`.
    pub fn add(self, rhs: &Self) -> (r: Result<Self, LinError>)
        ensures
            self.model().len() == rhs.model().len() ==> r is Ok && r.unwrap().model() == add_seq(
                self.model(),
                rhs.model(),
            ),
            self.model().len() != rhs.model().len() ==> (r matches Err(
                LinError::DimensionMismatch { left_dim, right_dim },
            ) && left_dim == self.model().len() && right_dim == rhs.model().len()),
    {
        let mut v = self;
        match v.add_assign(rhs) {
            Ok(()) => Ok(v),
            Err(e) => Err(e),
        }
    }
}

impl<T: Field> Vector for DVector<T> {
    type Elem = T;

    closed spec fn model(&self) -> Seq<T> {
        self.data@
    }

    /// Any run-time dimension can be allocated.
    open spec fn valid_dim(dim: usize) -> bool {
        true
    }

    fn zero_vec(dim: usize) -> (r: Self) {
        let mut data: Vec<T> = Vec::new();
        let mut i: usize = 0;
        while i < dim
            invariant
                i <= dim,
                data@ =~= zero_seq::<T>(i as nat),
            decreases dim - i,
        {
            data.push(T::zero());
            i += 1;
        }
        proof {
            assert(data@ =~= zero_seq::<T>(dim as nat));
        }
        DVector { data }
    }

    fn dim(&self) -> (n: usize) {
        self.data.len()
    }

    fn get(&self, i: usize) -> (r: Option<&T>) {
        if i >= self.data.len() {
            None
        } else {
            Some(&self.data[i])
        }
    }
}

impl<T: Field> VectorMut for DVector<T> {
    fn get_mut(&mut self, i: usize) -> (r: Option<&mut T>) {
        if i >= self.data.len() {
            None
        } else {
            Some(&mut self.data[i])
        }
    }
}

impl<T: Field> FullVector for DVector<T> {
    fn index(&self, i: usize) -> (r: &T) {
        &self.data[i]
    }
}

impl<T: Field> FullVectorMut for DVector<T> {
    fn index_mut(&mut self, i: usize) -> (r: &mut T) {
        &mut self.data[i]
    }
}

impl<T: Field> Clone for DVector<T> {
    /// Deep-copies the backing buffer.
    fn clone(&self) -> (r: Self)
        ensures
            r.model() == self.model(),
    {
        let mut data: Vec<T> = Vec::new();
        let n = self.data.len();
        let mut i: usize = 0;
        while i < n
            invariant
                n == self.data.len(),
                i <= n,
                data@ =~= self.data@.take(i as int),
            decreases n - i,
        {
            data.push(self.data[i]);
            i += 1;
        }
        proof {
            assert(data@ =~= self.data@);
        }
        DVector { data }
    }
}

} // verus!
