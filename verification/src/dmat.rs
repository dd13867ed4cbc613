//! Dynamic matrix: heap-allocated flat buffer addressed row-major, with row
//! and column counts chosen at run time and fixed thereafter.

use vstd::prelude::*;

use crate::error::LinError;
use crate::field::Field;
use crate::matrix::{FullMatrix, FullMatrixMut, Matrix, MatrixMut};

verus! {

/// A dynamically sized row-major matrix with arbitrary field element type.
/// Logical position `(i, j)` lives at buffer offset `i * ncols + j`; the row
/// count is derived from the buffer length.
pub struct DMatrix<T> {
    nc: usize,
    data: Vec<T>,
}

/// A row-major offset computed from an in-range position stays below the
/// total element count.
proof fn lemma_offset_bound(i: int, j: int, nr: int, nc: int)
    requires
        0 <= i < nr,
        0 <= j < nc,
    ensures
        0 <= i * nc + j < nr * nc,
{
    assert(i * nc + j < nr * nc) by (nonlinear_arith)
        requires
            0 <= i < nr,
            0 <= j < nc,
    ;
}

/// Row-major offsets are injective on in-range positions.
proof fn lemma_offset_inj(i1: int, j1: int, i2: int, j2: int, nc: int)
    requires
        0 <= i1,
        0 <= i2,
        0 <= j1 < nc,
        0 <= j2 < nc,
        i1 * nc + j1 == i2 * nc + j2,
    ensures
        i1 == i2 && j1 == j2,
{
    assert(i1 == i2 && j1 == j2) by (nonlinear_arith)
        requires
            0 <= i1,
            0 <= i2,
            0 <= j1 < nc,
            0 <= j2 < nc,
            i1 * nc + j1 == i2 * nc + j2,
    ;
}

impl<T: Field> DMatrix<T> {
    /// The row-major buffer offset of position `(i, j)`.
    closed spec fn offset(&self, i: int, j: int) -> int {
        i * self.nc + j
    }

    /// The grid covers a prefix of the buffer: `rows * cols` never exceeds
    /// the buffer length.
    proof fn lemma_grid_in_buffer(&self)
        ensures
            self.rows() * self.cols() <= self.data@.len(),
            self.data@.len() <= usize::MAX,
            self.nc == self.cols(),
    {
        assert(self.data@.len() == self.data.len());
        if self.nc != 0 {
            vstd::arithmetic::div_mod::lemma_fundamental_div_mod(
                self.data@.len() as int,
                self.nc as int,
            );
            vstd::arithmetic::div_mod::lemma_mod_bound(self.data@.len() as int, self.nc as int);
            vstd::arithmetic::mul::lemma_mul_is_commutative(
                self.rows() as int,
                self.cols() as int,
            );
        }
    }

    /// Builds a matrix of the given shape owning the given elements, read
    /// row-major.
    pub fn from_vec(rows: usize, cols: usize, data: Vec<T>) -> (r: Self)
        requires
            data@.len() == rows * cols,
            cols > 0 || rows == 0,
        ensures
            r.rows() == rows,
            r.cols() == cols,
            forall|i: int, j: int|
                0 <= i < rows && 0 <= j < cols ==> r.at(i, j) == data@[i * cols + j],
    {
        let r = DMatrix { nc: cols, data };
        proof {
            if cols > 0 {
                vstd::arithmetic::div_mod::lemma_div_by_multiple(rows as int, cols as int);
                vstd::arithmetic::mul::lemma_mul_is_commutative(rows as int, cols as int);
            }
        }
        r
    }

    /// Maps every element to its additive inverse.
    pub fn neg(self) -> (r: Self)
        ensures
            r.rows() == self.rows(),
            r.cols() == self.cols(),
            forall|i: int, j: int|
                0 <= i < self.rows() && 0 <= j < self.cols() ==> r.at(i, j) == self.at(
                    i,
                    j,
                ).sp_neg(),
    {
        let mut v = self;
        let n = v.data.len();
        let mut k: usize = 0;
        while k < n
            invariant
                n == v.data.len(),
                v.nc == self.nc,
                k <= n,
                forall|t: int| 0 <= t < k ==> v.data@[t] == self.data@[t].sp_neg(),
                forall|t: int| k <= t < n ==> v.data@[t] == self.data@[t],
            decreases n - k,
        {
            let x = v.data[k];
            v.data[k] = x.neg();
            k += 1;
        }
        proof {
            v.lemma_grid_in_buffer();
            assert forall|i: int, j: int|
                0 <= i < self.rows() && 0 <= j < self.cols() implies v.at(i, j) == self.at(
                i,
                j,
            ).sp_neg() by {
                lemma_offset_bound(i, j, self.rows() as int, self.cols() as int);
            }
        }
        v
    }

    /// Scales every element by the given scalar, in place.
    pub fn mul_assign(&mut self, rhs: T)
        ensures
            final(self).rows() == old(self).rows(),
            final(self).cols() == old(self).cols(),
            forall|i: int, j: int|
                0 <= i < old(self).rows() && 0 <= j < old(self).cols() ==> final(self).at(i, j)
                    == old(self).at(i, j).sp_mul(rhs),
    {
        let n = self.data.len();
        let mut k: usize = 0;
        while k < n
            invariant
                n == self.data.len(),
                self.nc == old(self).nc,
                k <= n,
                forall|t: int| 0 <= t < k ==> self.data@[t] == old(self).data@[t].sp_mul(rhs),
                forall|t: int| k <= t < n ==> self.data@[t] == old(self).data@[t],
            decreases n - k,
        {
            let x = self.data[k];
            self.data[k] = x.mul(rhs);
            k += 1;
        }
        proof {
            self.lemma_grid_in_buffer();
            assert forall|i: int, j: int|
                0 <= i < old(self).rows() && 0 <= j < old(self).cols() implies self.at(i, j) == old(self).at(i, j).sp_mul(rhs) by {
                lemma_offset_bound(i, j, old(self).rows() as int, old(self).cols() as int);
            }
        }
    }

    /// Scales every element by the given scalar.
    pub fn mul(self, rhs: T) -> (r: Self)
        ensures
            r.rows() == self.rows(),
            r.cols() == self.cols(),
            forall|i: int, j: int|
                0 <= i < self.rows() && 0 <= j < self.cols() ==> r.at(i, j) == self.at(i, j).sp_mul(
                    rhs,
                ),
    {
        let mut v = self;
        v.mul_assign(rhs);
        v
    }

    /// Adds `rhs` elementwise, in place. Operands of different shapes are
    /// rejected and the matrix is left unchanged.
    pub fn add_assign(&mut self, rhs: &Self) -> (r: Result<(), LinError>)
        ensures
            old(self).rows() == rhs.rows() && old(self).cols() == rhs.cols() ==> (r is Ok && final(self).rows() == old(self).rows() && final(self).cols() == old(self).cols() && forall|
                i: int,
                j: int,
            |
                0 <= i < old(self).rows() && 0 <= j < old(self).cols() ==> final(self).at(i, j)
                    == old(self).at(i, j).sp_add(rhs.at(i, j))),
            old(self).rows() != rhs.rows() || old(self).cols() != rhs.cols() ==> (r matches Err(
                LinError::ShapeMismatch { left_rows, left_cols, right_rows, right_cols },
            ) && left_rows == old(self).rows() && left_cols == old(self).cols() && right_rows
                == rhs.rows() && right_cols == rhs.cols() && final(self).rows() == old(self).rows()
                && final(self).cols() == old(self).cols() && forall|i: int, j: int|
                0 <= i < old(self).rows() && 0 <= j < old(self).cols() ==> final(self).at(i, j)
                    == old(self).at(i, j)),
    {
        let nr = self.nrows();
        let nc = self.ncols();
        if nr != rhs.nrows() || nc != rhs.ncols() {
            return Err(
                LinError::ShapeMismatch {
                    left_rows: nr,
                    left_cols: nc,
                    right_rows: rhs.nrows(),
                    right_cols: rhs.ncols(),
                },
            );
        }
        proof {
            self.lemma_grid_in_buffer();
            rhs.lemma_grid_in_buffer();
        }
        let total = nr * nc;
        let mut k: usize = 0;
        while k < total
            invariant
                total == nr * nc,
                nr == old(self).rows(),
                nc == old(self).cols(),
                self.nc == old(self).nc,
                total <= self.data@.len(),
                total <= rhs.data@.len(),
                self.data@.len() == old(self).data@.len(),
                nr == rhs.rows(),
                nc == rhs.cols(),
                k <= total,
                forall|t: int|
                    0 <= t < k ==> self.data@[t] == old(self).data@[t].sp_add(rhs.data@[t]),
                forall|t: int| k <= t < self.data@.len() ==> self.data@[t] == old(self).data@[t],
            decreases total - k,
        {
            let x = self.data[k];
            self.data[k] = x.add(rhs.data[k]);
            k += 1;
        }
        proof {
            assert forall|i: int, j: int|
                0 <= i < old(self).rows() && 0 <= j < old(self).cols() implies self.at(i, j) == old(self).at(i, j).sp_add(rhs.at(i, j)) by {
                lemma_offset_bound(i, j, old(self).rows() as int, old(self).cols() as int);
            }
        }
        Ok(())
    }

    /// Adds `rhs` elementwise. Operands of different shapes are rejected with
    /// a `ShapeMismatch`.
    pub fn add(self, rhs: &Self) -> (r: Result<Self, LinError>)
        ensures
            self.rows() == rhs.rows() && self.cols() == rhs.cols() ==> (r is Ok
                && r.unwrap().rows() == self.rows() && r.unwrap().cols() == self.cols() && forall|
                i: int,
                j: int,
            |
                0 <= i < self.rows() && 0 <= j < self.cols() ==> r.unwrap().at(i, j) == self.at(
                    i,
                    j,
                ).sp_add(rhs.at(i, j))),
            self.rows() != rhs.rows() || self.cols() != rhs.cols() ==> (r matches Err(
                LinError::ShapeMismatch { left_rows, left_cols, right_rows, right_cols },
            ) && left_rows == self.rows() && left_cols == self.cols() && right_rows == rhs.rows()
                && right_cols == rhs.cols()),
    {
        let mut v = self;
        match v.add_assign(rhs) {
            Ok(()) => Ok(v),
            Err(e) => Err(e),
        }
    }
}

impl<T: Field> Matrix for DMatrix<T> {
    type Elem = T;

    closed spec fn rows(&self) -> nat {
        if self.nc == 0 {
            0
        } else {
            self.data@.len() / self.nc as nat
        }
    }

    closed spec fn cols(&self) -> nat {
        self.nc as nat
    }

    closed spec fn at(&self, i: int, j: int) -> T {
        self.data@[self.offset(i, j)]
    }

    /// Any shape whose element count fits in memory can be allocated; a
    /// matrix without columns cannot hold rows.
    open spec fn valid_shape(rows: usize, cols: usize) -> bool {
        &&& rows * cols <= usize::MAX
        &&& (cols > 0 || rows == 0)
    }

    fn zero_mat(rows: usize, cols: usize) -> (r: Self) {
        proof {
            vstd::arithmetic::mul::lemma_mul_is_commutative(rows as int, cols as int);
        }
        let total = rows * cols;
        let mut data: Vec<T> = Vec::new();
        let mut k: usize = 0;
        while k < total
            invariant
                k <= total,
                data@.len() == k,
                forall|t: int| 0 <= t < k ==> data@[t] == T::sp_zero(),
            decreases total - k,
        {
            data.push(T::zero());
            k += 1;
        }
        let r = DMatrix { nc: cols, data };
        proof {
            if cols > 0 {
                vstd::arithmetic::div_mod::lemma_div_by_multiple(rows as int, cols as int);
                vstd::arithmetic::mul::lemma_mul_is_commutative(rows as int, cols as int);
            }
            r.lemma_grid_in_buffer();
            assert forall|i: int, j: int|
                0 <= i < rows && 0 <= j < cols implies r.at(i, j) == T::sp_zero() by {
                lemma_offset_bound(i, j, rows as int, cols as int);
            }
        }
        r
    }

    fn nrows(&self) -> (n: usize) {
        if self.nc == 0 {
            0
        } else {
            self.data.len() / self.nc
        }
    }

    fn ncols(&self) -> (n: usize) {
        self.nc
    }

    fn get(&self, i: usize, j: usize) -> (r: Option<&T>) {
        let nr = self.nrows();
        if i >= nr || j >= self.nc {
            None
        } else {
            proof {
                self.lemma_grid_in_buffer();
                lemma_offset_bound(i as int, j as int, self.rows() as int, self.cols() as int);
            }
            Some(&self.data[i * self.nc + j])
        }
    }
}

impl<T: Field> MatrixMut for DMatrix<T> {
    fn get_mut(&mut self, i: usize, j: usize) -> (r: Option<&mut T>) {
        let nr = self.nrows();
        if i >= nr || j >= self.nc {
            None
        } else {
            proof {
                self.lemma_grid_in_buffer();
                lemma_offset_bound(i as int, j as int, self.rows() as int, self.cols() as int);
                assert forall|i2: int, j2: int|
                    0 <= i2 < self.rows() && 0 <= j2 < self.cols() implies 0 <= #[trigger] self.offset(i2, j2) < self.data@.len() && (self.offset(i2, j2) == self.offset(i as int, j as int) ==> i2 == i && j2 == j) by {
                    lemma_offset_bound(i2, j2, self.rows() as int, self.cols() as int);
                    if i2 * self.nc + j2 == i * self.nc + j {
                        lemma_offset_inj(i2, j2, i as int, j as int, self.nc as int);
                    }
                }
            }
            let idx = i * self.nc + j;
            let r = &mut self.data[idx];
            Some(r)
        }
    }
}

impl<T: Field> FullMatrix for DMatrix<T> {
    fn index(&self, i: usize, j: usize) -> (r: &T) {
        proof {
            self.lemma_grid_in_buffer();
            lemma_offset_bound(i as int, j as int, self.rows() as int, self.cols() as int);
        }
        &self.data[i * self.nc + j]
    }
}

impl<T: Field> FullMatrixMut for DMatrix<T> {
    fn index_mut(&mut self, i: usize, j: usize) -> (r: &mut T) {
        proof {
            self.lemma_grid_in_buffer();
            lemma_offset_bound(i as int, j as int, self.rows() as int, self.cols() as int);
            assert forall|i2: int, j2: int|
                0 <= i2 < self.rows() && 0 <= j2 < self.cols() implies 0 <= #[trigger] self.offset(i2, j2) < self.data@.len() && (self.offset(i2, j2) == self.offset(i as int, j as int) ==> i2 == i && j2 == j) by {
                lemma_offset_bound(i2, j2, self.rows() as int, self.cols() as int);
                if i2 * self.nc + j2 == i * self.nc + j {
                    lemma_offset_inj(i2, j2, i as int, j as int, self.nc as int);
                }
            }
        }
        let idx = i * self.nc + j;
        let r = &mut self.data[idx];
        r
    }
}

impl<T: Field> Clone for DMatrix<T> {
    /// Deep-copies the backing buffer and the shape.
    fn clone(&self) -> (r: Self)
        ensures
            r.rows() == self.rows(),
            r.cols() == self.cols(),
            forall|i: int, j: int|
                0 <= i < self.rows() && 0 <= j < self.cols() ==> r.at(i, j) == self.at(i, j),
    {
        let mut data: Vec<T> = Vec::new();
        let n = self.data.len();
        let mut k: usize = 0;
        while k < n
            invariant
                n == self.data.len(),
                k <= n,
                data@ =~= self.data@.take(k as int),
            decreases n - k,
        {
            data.push(self.data[k]);
            k += 1;
        }
        proof {
            assert(data@ =~= self.data@);
        }
        DMatrix { nc: self.nc, data }
    }
}

} // verus!
