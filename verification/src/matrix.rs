//! The matrix capability interface: row/column counts, indexed access,
//! zero-construction, and default traversals. Every `Vector` is automatically
//! a single-column `Matrix`.

use vstd::prelude::*;

use crate::algebra::dot_seq;
use crate::field::Field;
use crate::vector::{Vector, VectorMut};

verus! {

/// A two-dimensional grid of field elements with row and column counts fixed
/// at construction.
pub trait Matrix: Sized {
    type Elem: Field;

    /// The row count.
    spec fn rows(&self) -> nat;

    /// The column count.
    spec fn cols(&self) -> nat;

    /// The element at position `(i, j)`; meaningful only in range.
    spec fn at(&self, i: int, j: int) -> Self::Elem;

    /// Which run-time shapes this storage type can be constructed with.
    spec fn valid_shape(rows: usize, cols: usize) -> bool;

    /// Builds a matrix of the given shape with every element equal to the
    /// additive identity of the field.
    fn zero_mat(rows: usize, cols: usize) -> (r: Self)
        requires
            Self::valid_shape(rows, cols),
        ensures
            r.rows() == rows,
            r.cols() == cols,
            forall|i: int, j: int|
                0 <= i < rows && 0 <= j < cols ==> r.at(i, j) == <Self::Elem as Field>::sp_zero(),
    ;

    /// The row count, constant for the lifetime of the value.
    fn nrows(&self) -> (n: usize)
        ensures
            n == self.rows(),
    ;

    /// The column count, constant for the lifetime of the value.
    fn ncols(&self) -> (n: usize)
        ensures
            n == self.cols(),
    ;

    /// Bounds-checked element access: absent exactly when `(i, j)` is out of
    /// range.
    fn get(&self, i: usize, j: usize) -> (r: Option<&Self::Elem>)
        ensures
            i < self.rows() && j < self.cols() ==> r.is_some() && *r.unwrap() == self.at(
                i as int,
                j as int,
            ),
            i >= self.rows() || j >= self.cols() ==> r.is_none(),
    ;

    /// Whether every element is the additive identity. Stops at the first
    /// element that is not.
    fn is_zero(&self) -> (b: bool)
        ensures
            b <==> forall|i: int, j: int|
                0 <= i < self.rows() && 0 <= j < self.cols() ==> self.at(i, j) == <Self::Elem as Field>::sp_zero(),
    {
        let nr = self.nrows();
        let nc = self.ncols();
        let mut i: usize = 0;
        while i < nr
            invariant
                nr == self.rows(),
                nc == self.cols(),
                i <= nr,
                forall|i2: int, j2: int|
                    0 <= i2 < i && 0 <= j2 < nc ==> self.at(i2, j2) == <Self::Elem as Field>::sp_zero(),
            decreases nr - i,
        {
            let mut j: usize = 0;
            while j < nc
                invariant
                    nr == self.rows(),
                    nc == self.cols(),
                    i < nr,
                    j <= nc,
                    forall|i2: int, j2: int|
                        0 <= i2 < i && 0 <= j2 < nc ==> self.at(i2, j2) == <Self::Elem as Field>::sp_zero(),
                    forall|j2: int|
                        0 <= j2 < j ==> self.at(i as int, j2) == <Self::Elem as Field>::sp_zero(),
                decreases nc - j,
            {
                if let Some(r) = self.get(i, j) {
                    if !r.is_zero() {
                        return false;
                    }
                }
                j += 1;
            }
            i += 1;
        }
        true
    }
}

/// Indexed write access for matrices.
pub trait MatrixMut: Matrix {
    /// Bounds-checked mutable element access: absent exactly when `(i, j)` is
    /// out of range, in which case no element changes.
    fn get_mut(&mut self, i: usize, j: usize) -> (r: Option<&mut Self::Elem>)
        ensures
            i < old(self).rows() && j < old(self).cols() ==> (r.is_some() && *r.unwrap() == old(
                self,
            ).at(i as int, j as int) && final(self).rows() == old(self).rows() && final(self).cols()
                == old(self).cols() && final(self).at(i as int, j as int) == *final(r.unwrap())
                && forall|i2: int, j2: int|
                0 <= i2 < old(self).rows() && 0 <= j2 < old(self).cols() && !(i2 == i && j2 == j)
                    ==> final(self).at(i2, j2) == old(self).at(i2, j2)),
            i >= old(self).rows() || j >= old(self).cols() ==> (r.is_none() && final(self).rows()
                == old(self).rows() && final(self).cols() == old(self).cols() && forall|
                i2: int,
                j2: int,
            |
                0 <= i2 < old(self).rows() && 0 <= j2 < old(self).cols() ==> final(self).at(i2, j2)
                    == old(self).at(i2, j2)),
    ;

    /// Writes the additive identity into every element.
    fn set_zero(&mut self)
        ensures
            final(self).rows() == old(self).rows(),
            final(self).cols() == old(self).cols(),
            forall|i: int, j: int|
                0 <= i < old(self).rows() && 0 <= j < old(self).cols() ==> final(self).at(i, j)
                    == <Self::Elem as Field>::sp_zero(),
    {
        let nr = self.nrows();
        let nc = self.ncols();
        let mut i: usize = 0;
        while i < nr
            invariant
                nr == self.rows(),
                nc == self.cols(),
                i <= nr,
                forall|i2: int, j2: int|
                    0 <= i2 < i && 0 <= j2 < nc ==> self.at(i2, j2) == <Self::Elem as Field>::sp_zero(),
            decreases nr - i,
        {
            let mut j: usize = 0;
            while j < nc
                invariant
                    nr == self.rows(),
                    nc == self.cols(),
                    i < nr,
                    j <= nc,
                    forall|i2: int, j2: int|
                        0 <= i2 < i && 0 <= j2 < nc ==> self.at(i2, j2) == <Self::Elem as Field>::sp_zero(),
                    forall|j2: int|
                        0 <= j2 < j ==> self.at(i as int, j2) == <Self::Elem as Field>::sp_zero(),
                decreases nc - j,
            {
                if let Some(r) = self.get_mut(i, j) {
                    *r = <Self::Elem as Field>::zero();
                }
                j += 1;
            }
            i += 1;
        }
    }
}

/// Direct positional read access, for code that has already validated bounds.
pub trait FullMatrix: Matrix {
    /// Direct indexing. Out-of-range access is a programming error, excluded
    /// by the precondition.
    fn index(&self, i: usize, j: usize) -> (r: &Self::Elem)
        requires
            i < self.rows(),
            j < self.cols(),
        ensures
            *r == self.at(i as int, j as int),
    ;
}

/// Direct positional write access, for code that has already validated bounds.
pub trait FullMatrixMut: FullMatrix + MatrixMut {
    /// Direct mutable indexing. Out-of-range access is a programming error,
    /// excluded by the precondition.
    fn index_mut(&mut self, i: usize, j: usize) -> (r: &mut Self::Elem)
        requires
            i < old(self).rows(),
            j < old(self).cols(),
        ensures
            *r == old(self).at(i as int, j as int),
            final(self).rows() == old(self).rows(),
            final(self).cols() == old(self).cols(),
            final(self).at(i as int, j as int) == *final(r),
            forall|i2: int, j2: int|
                0 <= i2 < old(self).rows() && 0 <= j2 < old(self).cols() && !(i2 == i && j2 == j)
                    ==> final(self).at(i2, j2) == old(self).at(i2, j2),
    ;
}

/// Matrix–vector multiplication capability: applying a matrix to a
/// compatible vector gives the vector whose element `i` is the dot product
/// of row `i` of the matrix with the input.
pub trait MatVecMul<Rhs: Vector>: Matrix<Elem = <Rhs as Vector>::Elem> {
    type Output: Vector<Elem = <Rhs as Vector>::Elem>;

    /// Matrix–vector product.
    fn apply(&self, rhs: &Rhs) -> (r: Self::Output)
        requires
            self.cols() == rhs.model().len(),
        ensures
            r.model().len() == self.rows(),
            forall|i: int|
                0 <= i < self.rows() ==> r.model()[i] == dot_seq(
                    Seq::new(self.cols(), |j: int| self.at(i, j)),
                    rhs.model(),
                ),
    ;
}

/// Every vector is structurally a single-column matrix: `nrows` is the
/// dimension, `ncols` is one, and reads at any `j != 0` are absent.
impl<T: Vector> Matrix for T {
    type Elem = T::Elem;

    open spec fn rows(&self) -> nat {
        self.model().len()
    }

    open spec fn cols(&self) -> nat {
        1
    }

    open spec fn at(&self, i: int, j: int) -> T::Elem {
        self.model()[i]
    }

    open spec fn valid_shape(rows: usize, cols: usize) -> bool {
        T::valid_dim(rows) && cols == 1
    }

    fn zero_mat(rows: usize, cols: usize) -> (r: Self) {
        T::zero_vec(rows)
    }

    fn nrows(&self) -> (n: usize) {
        self.dim()
    }

    fn ncols(&self) -> (n: usize) {
        1
    }

    fn get(&self, i: usize, j: usize) -> (r: Option<&T::Elem>) {
        if j != 0 {
            None
        } else {
            Vector::get(self, i)
        }
    }
}

/// Every mutable vector is a mutable single-column matrix.
impl<T: VectorMut> MatrixMut for T {
    fn get_mut(&mut self, i: usize, j: usize) -> (r: Option<&mut T::Elem>) {
        if j != 0 {
            None
        } else {
            VectorMut::get_mut(self, i)
        }
    }
}

} // verus!
