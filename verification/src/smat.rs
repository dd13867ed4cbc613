//! Static matrix: a fixed-size array of column vectors (column-major), with
//! compile-time row and column counts.

use vstd::prelude::*;

use crate::algebra::{
    dot_seq, lemma_vec_sum_push, lemma_vec_sum_scale, lemma_vec_sum_scale_left, lemma_vec_sum_swap,
    lscale_seq, mul_seq, scale_seq, vec_sum, zero_seq,
};
use crate::field::Field;
use crate::matrix::{FullMatrix, FullMatrixMut, MatVecMul, Matrix, MatrixMut};
use crate::svec::{lemma_svec_len, SVector};
use crate::vector::{FullVector, FullVectorMut, Vector, VectorMut};

verus! {

broadcast use vstd::array::group_array_axioms, lemma_svec_len;

/// A matrix of compile-time shape `ROWS x COLS`, stored as `COLS` column
/// vectors of length `ROWS`. Position `(i, j)` is row `i` of column `j`.
#[derive(Clone, Copy)]
pub struct SMatrix<T, const ROWS: usize, const COLS: usize> {
    columns: [SVector<T, ROWS>; COLS],
}

impl<T: Field, const ROWS: usize, const COLS: usize> SMatrix<T, ROWS, COLS> {
    /// The elements of column `j`, in row order.
    pub closed spec fn col(&self, j: int) -> Seq<T> {
        self.columns@[j].model()
    }

    /// The elements of row `i`, in column order.
    pub open spec fn row(&self, i: int) -> Seq<T> {
        Seq::new(COLS as nat, |j: int| self.at(i, j))
    }

    /// Builds the all-zero matrix.
    pub fn zero() -> (r: Self)
        ensures
            forall|i: int, j: int|
                0 <= i < ROWS && 0 <= j < COLS ==> r.at(i, j) == T::sp_zero(),
    {
        let z = SVector::<T, ROWS>::zero();
        let columns = vstd::array::array_fill_for_copy_types::<SVector<T, ROWS>, COLS>(z);
        proof {
            assert(forall|j: int| 0 <= j < COLS ==> columns@[j] == z);
        }
        let r = SMatrix { columns };
        proof {
            assert forall|i: int, j: int|
                0 <= i < ROWS && 0 <= j < COLS implies r.at(i, j) == T::sp_zero() by {
                assert(r.columns@[j] == z);
                assert(r.col(j) == z.model());
            }
        }
        r
    }

    /// Builds a matrix from its array of columns.
    pub fn from_cols(columns: [SVector<T, ROWS>; COLS]) -> (r: Self)
        ensures
            forall|j: int| 0 <= j < COLS ==> r.col(j) == columns@[j].model(),
    {
        SMatrix { columns }
    }

    /// Builds a matrix from a row-major nested literal: entry `(i, j)` of the
    /// result is element `j` of row `i`.
    pub fn from_rows(rows: [[T; COLS]; ROWS]) -> (r: Self)
        ensures
            forall|i: int, j: int|
                0 <= i < ROWS && 0 <= j < COLS ==> r.at(i, j) == rows@[i]@[j],
    {
        let mut m = Self::zero();
        let mut i: usize = 0;
        while i < ROWS
            invariant
                i <= ROWS,
                forall|i2: int, j2: int|
                    0 <= i2 < i && 0 <= j2 < COLS ==> m.columns@[j2].model()[i2] == rows@[i2]@[j2],
            decreases ROWS - i,
        {
            let mut j: usize = 0;
            while j < COLS
                invariant
                    i < ROWS,
                    j <= COLS,
                    forall|i2: int, j2: int|
                        0 <= i2 < i && 0 <= j2 < COLS ==> m.columns@[j2].model()[i2]
                            == rows@[i2]@[j2],
                    forall|j2: int|
                        0 <= j2 < j ==> m.columns@[j2].model()[i as int] == rows@[i as int]@[j2],
                decreases COLS - j,
            {
                let row = &rows[i];
                let mut c = m.columns[j];
                let slot = c.index_mut(i);
                *slot = row[j];
                m.columns[j] = c;
                j += 1;
            }
            i += 1;
        }
        proof {
            assert forall|i2: int, j2: int|
                0 <= i2 < ROWS && 0 <= j2 < COLS implies m.at(i2, j2) == rows@[i2]@[j2] by {
                assert(m.col(j2)[i2] == rows@[i2]@[j2]);
            }
        }
        m
    }

    /// Maps every element to its additive inverse, column by column.
    pub fn neg(self) -> (r: Self)
        ensures
            forall|i: int, j: int|
                0 <= i < ROWS && 0 <= j < COLS ==> r.at(i, j) == self.at(i, j).sp_neg(),
    {
        let mut m = self;
        let mut j: usize = 0;
        while j < COLS
            invariant
                forall|j2: int|
                    0 <= j2 < j && j2 < COLS ==> m.columns@[j2].model() == crate::algebra::neg_seq(
                        self.columns@[j2].model(),
                    ),
                forall|j2: int| j <= j2 < COLS ==> m.columns@[j2] == self.columns@[j2],
            decreases COLS - j,
        {
            let c = m.columns[j];
            m.columns[j] = c.neg();
            j += 1;
        }
        proof {
            assert forall|i2: int, j2: int|
                0 <= i2 < ROWS && 0 <= j2 < COLS implies m.at(i2, j2) == self.at(i2, j2).sp_neg() by {
                assert(m.col(j2) == crate::algebra::neg_seq(self.col(j2)));
            }
        }
        m
    }

    /// Scales every element by the given scalar, in place.
    pub fn mul_assign(&mut self, rhs: T)
        ensures
            forall|i: int, j: int|
                0 <= i < ROWS && 0 <= j < COLS ==> final(self).at(i, j) == old(self).at(
                    i,
                    j,
                ).sp_mul(rhs),
    {
        let mut j: usize = 0;
        while j < COLS
            invariant
                forall|j2: int|
                    0 <= j2 < j && j2 < COLS ==> self.columns@[j2].model()
                        == crate::algebra::scale_seq(old(self).columns@[j2].model(), rhs),
                forall|j2: int| j <= j2 < COLS ==> self.columns@[j2] == old(self).columns@[j2],
            decreases COLS - j,
        {
            let c = self.columns[j];
            self.columns[j] = c.mul(rhs);
            j += 1;
        }
        proof {
            assert forall|i2: int, j2: int|
                0 <= i2 < ROWS && 0 <= j2 < COLS implies self.at(i2, j2) == old(self).at(
                i2,
                j2,
            ).sp_mul(rhs) by {
                assert(self.col(j2) == crate::algebra::scale_seq(old(self).col(j2), rhs));
            }
        }
    }

    /// Scales every element by the given scalar.
    pub fn mul(self, rhs: T) -> (r: Self)
        ensures
            forall|i: int, j: int|
                0 <= i < ROWS && 0 <= j < COLS ==> r.at(i, j) == self.at(i, j).sp_mul(rhs),
    {
        let mut m = self;
        m.mul_assign(rhs);
        m
    }

    /// Adds `rhs` elementwise, in place. The shapes match by type, so no
    /// mismatch case exists.
    pub fn add_assign(&mut self, rhs: &Self)
        ensures
            forall|i: int, j: int|
                0 <= i < ROWS && 0 <= j < COLS ==> final(self).at(i, j) == old(self).at(
                    i,
                    j,
                ).sp_add(rhs.at(i, j)),
    {
        let mut j: usize = 0;
        while j < COLS
            invariant
                forall|j2: int|
                    0 <= j2 < j && j2 < COLS ==> self.columns@[j2].model()
                        == crate::algebra::add_seq(
                        old(self).columns@[j2].model(),
                        rhs.columns@[j2].model(),
                    ),
                forall|j2: int| j <= j2 < COLS ==> self.columns@[j2] == old(self).columns@[j2],
            decreases COLS - j,
        {
            let c = self.columns[j];
            self.columns[j] = c.add(&rhs.columns[j]);
            j += 1;
        }
        proof {
            assert forall|i2: int, j2: int|
                0 <= i2 < ROWS && 0 <= j2 < COLS implies self.at(i2, j2) == old(self).at(
                i2,
                j2,
            ).sp_add(rhs.at(i2, j2)) by {
                assert(self.col(j2) == crate::algebra::add_seq(old(self).col(j2), rhs.col(j2)));
            }
        }
    }

    /// Adds `rhs` elementwise.
    pub fn add(self, rhs: &Self) -> (r: Self)
        ensures
            forall|i: int, j: int|
                0 <= i < ROWS && 0 <= j < COLS ==> r.at(i, j) == self.at(i, j).sp_add(
                    rhs.at(i, j),
                ),
    {
        let mut m = self;
        m.add_assign(rhs);
        m
    }

    /// Copies column `col` out of the matrix; absent when `col` is out of
    /// range.
    pub fn clone_col(&self, col: usize) -> (r: Option<SVector<T, ROWS>>)
        ensures
            col < COLS ==> r.is_some() && r.unwrap().model() == self.col(col as int),
            col >= COLS ==> r.is_none(),
    {
        if col >= COLS {
            None
        } else {
            Some(self.columns[col])
        }
    }

    /// Borrows column `col`; absent when `col` is out of range.
    pub fn get_col(&self, col: usize) -> (r: Option<&SVector<T, ROWS>>)
        ensures
            col < COLS ==> r.is_some() && r.unwrap().model() == self.col(col as int),
            col >= COLS ==> r.is_none(),
    {
        if col >= COLS {
            None
        } else {
            Some(&self.columns[col])
        }
    }

    /// Matrix product with `rhs`: column `k` of the result is this matrix
    /// applied to column `k` of `rhs`, so entry `(i, k)` is the dot product
    /// of row `i` with column `k`.
    pub fn mul_mat<const TCOLS: usize>(&self, rhs: &SMatrix<T, COLS, TCOLS>) -> (r: SMatrix<
        T,
        ROWS,
        TCOLS,
    >)
        ensures
            forall|i: int, k: int|
                0 <= i < ROWS && 0 <= k < TCOLS ==> r.at(i, k) == dot_seq(
                    self.row(i),
                    rhs.col(k),
                ),
    {
        let mut m = SMatrix::<T, ROWS, TCOLS>::zero();
        let mut k: usize = 0;
        while k < TCOLS
            invariant
                k <= TCOLS,
                forall|i2: int, k2: int|
                    0 <= i2 < ROWS && 0 <= k2 < k && k2 < TCOLS ==> m.columns@[k2].model()[i2]
                        == dot_seq(self.row(i2), rhs.columns@[k2].model()),
            decreases TCOLS - k,
        {
            let c = self.mul_vec(&rhs.columns[k]);
            m.columns[k] = c;
            k += 1;
        }
        proof {
            assert forall|i2: int, k2: int|
                0 <= i2 < ROWS && 0 <= k2 < TCOLS implies m.at(i2, k2) == dot_seq(
                self.row(i2),
                rhs.col(k2),
            ) by {
                assert(m.col(k2)[i2] == dot_seq(self.row(i2), rhs.col(k2)));
            }
        }
        m
    }

    /// Matrix–vector product: element `i` of the result is the dot product of
    /// row `i` with the input vector.
    pub fn mul_vec(&self, rhs: &SVector<T, COLS>) -> (r: SVector<T, ROWS>)
        ensures
            forall|i: int|
                0 <= i < ROWS ==> r.model()[i] == dot_seq(self.row(i), rhs.model()),
    {
        let mut out = SVector::<T, ROWS>::zero();
        let mut i: usize = 0;
        while i < ROWS
            invariant
                out.model().len() == ROWS,
                i <= ROWS,
                forall|i2: int|
                    0 <= i2 < i ==> out.model()[i2] == dot_seq(self.row(i2), rhs.model()),
            decreases ROWS - i,
        {
            let mut acc = T::zero();
            let mut j: usize = 0;
            proof {
                assert(mul_seq(self.row(i as int).take(0), rhs.model().take(0)) =~= Seq::<
                    T,
                >::empty());
            }
            while j < COLS
                invariant
                    i < ROWS,
                    j <= COLS,
                    acc == vec_sum_prefix(self.row(i as int), rhs.model(), j as int),
                decreases COLS - j,
            {
                let cj = &self.columns[j];
                let x = *cj.index(i);
                let y = *rhs.index(j);
                let ghost pre = mul_seq(
                    self.row(i as int).take(j as int),
                    rhs.model().take(j as int),
                );
                let ghost e = self.row(i as int)[j as int].sp_mul(rhs.model()[j as int]);
                acc = acc.add(x.mul(y));
                proof {
                    assert(mul_seq(
                        self.row(i as int).take(j + 1),
                        rhs.model().take(j + 1),
                    ) =~= pre.push(e));
                    lemma_vec_sum_push(pre, e);
                }
                j += 1;
            }
            proof {
                assert(self.row(i as int).take(COLS as int) =~= self.row(i as int));
                assert(rhs.model().take(COLS as int) =~= rhs.model());
            }
            let slot = out.index_mut(i);
            *slot = acc;
            i += 1;
        }
        out
    }
}

/// The running value of a dot-product loop: the dot product of the length-`j`
/// prefixes.
spec fn vec_sum_prefix<T: Field>(s: Seq<T>, t: Seq<T>, j: int) -> T {
    crate::algebra::vec_sum(mul_seq(s.take(j), t.take(j)))
}

/// One entry of a triple product, bracketed either way: the dot product of
/// row `i` of `a * b` with column `m` of `c` equals the dot product of row
/// `i` of `a` with column `m` of `b * c`.
proof fn lemma_assoc_entry<
    T: Field,
    const R: usize,
    const C: usize,
    const D: usize,
    const E: usize,
>(a: SMatrix<T, R, C>, b: SMatrix<T, C, D>, c: SMatrix<T, D, E>, i: int, m: int)
    requires
        0 <= i < R,
        0 <= m < E,
    ensures
        dot_seq(
            Seq::new(D as nat, |l: int| dot_seq(a.row(i), b.col(l))),
            c.col(m),
        ) == dot_seq(a.row(i), Seq::new(C as nat, |j: int| dot_seq(b.row(j), c.col(m)))),
{
    let ar = a.row(i);
    let cm = c.col(m);
    let p = Seq::new(D as nat, |l: int| dot_seq(ar, b.col(l)));
    let q = Seq::new(C as nat, |j: int| dot_seq(b.row(j), cm));
    let g = Seq::new(D as nat, |l: int| scale_seq(mul_seq(ar, b.col(l)), cm[l]));
    // Each product entry on the left is the sum of one grid row.
    assert forall|l: int| 0 <= l < D implies mul_seq(p, cm)[l] == vec_sum(g[l]) by {
        lemma_vec_sum_scale(mul_seq(ar, b.col(l)), cm[l]);
    }
    assert(mul_seq(p, cm) =~= Seq::new(D as nat, |l: int| vec_sum(g[l])));
    // Swap the summation order over the grid.
    assert(forall|l: int| 0 <= l < D ==> (#[trigger] g[l]).len() == C);
    lemma_vec_sum_swap(g, C as nat);
    // Each product entry on the right is the sum of one grid column.
    assert forall|j: int| 0 <= j < C implies mul_seq(ar, q)[j] == vec_sum(
        Seq::new(D as nat, |l: int| g[l][j]),
    ) by {
        let bj = mul_seq(b.row(j), cm);
        assert forall|l: int| 0 <= l < D implies Seq::new(D as nat, |l2: int| g[l2][j])[l]
            == lscale_seq(bj, ar[j])[l] by {
            T::lemma_mul_assoc(ar[j], b.at(j, l), cm[l]);
        }
        assert(Seq::new(D as nat, |l: int| g[l][j]) =~= lscale_seq(bj, ar[j]));
        lemma_vec_sum_scale_left(bj, ar[j]);
    }
    assert(mul_seq(ar, q) =~= Seq::new(C as nat, |j: int| vec_sum(Seq::new(D as nat, |l: int| g[l][j]))));
}

/// Matrix product associativity for compatible static shapes: when `ab`,
/// `bc`, `abc_l` and `abc_r` hold the entries of `a * b`, `b * c`,
/// `(a * b) * c` and `a * (b * c)`, the two bracketings agree entry for
/// entry.
pub proof fn lemma_mul_mat_assoc<
    T: Field,
    const R: usize,
    const C: usize,
    const D: usize,
    const E: usize,
>(
    a: SMatrix<T, R, C>,
    b: SMatrix<T, C, D>,
    c: SMatrix<T, D, E>,
    ab: SMatrix<T, R, D>,
    bc: SMatrix<T, C, E>,
    abc_l: SMatrix<T, R, E>,
    abc_r: SMatrix<T, R, E>,
)
    requires
        forall|i: int, l: int|
            0 <= i < R && 0 <= l < D ==> ab.at(i, l) == dot_seq(a.row(i), b.col(l)),
        forall|j: int, m: int|
            0 <= j < C && 0 <= m < E ==> bc.at(j, m) == dot_seq(b.row(j), c.col(m)),
        forall|i: int, m: int|
            0 <= i < R && 0 <= m < E ==> abc_l.at(i, m) == dot_seq(ab.row(i), c.col(m)),
        forall|i: int, m: int|
            0 <= i < R && 0 <= m < E ==> abc_r.at(i, m) == dot_seq(a.row(i), bc.col(m)),
    ensures
        forall|i: int, m: int| 0 <= i < R && 0 <= m < E ==> abc_l.at(i, m) == abc_r.at(i, m),
{
    assert forall|i: int, m: int|
        0 <= i < R && 0 <= m < E implies abc_l.at(i, m) == abc_r.at(i, m) by {
        assert(ab.row(i) =~= Seq::new(D as nat, |l: int| dot_seq(a.row(i), b.col(l))));
        assert forall|j: int| 0 <= j < C implies bc.col(m)[j] == dot_seq(b.row(j), c.col(m)) by {
            assert(bc.col(m)[j] == bc.at(j, m));
        }
        assert(bc.col(m) =~= Seq::new(C as nat, |j: int| dot_seq(b.row(j), c.col(m))));
        lemma_assoc_entry(a, b, c, i, m);
    }
}

impl<T: Field, const ROWS: usize> SMatrix<T, ROWS, 1> {
    /// Unwraps a single-column matrix into its one column.
    pub fn into_svector(self) -> (r: SVector<T, ROWS>)
        ensures
            r.model() == self.col(0),
    {
        let c = self.columns[0];
        c
    }
}

impl<T: Field, const ROWS: usize, const COLS: usize> Matrix for SMatrix<T, ROWS, COLS> {
    type Elem = T;

    closed spec fn rows(&self) -> nat {
        ROWS as nat
    }

    closed spec fn cols(&self) -> nat {
        COLS as nat
    }

    closed spec fn at(&self, i: int, j: int) -> T {
        self.col(j)[i]
    }

    /// Only the compile-time shape itself is a valid run-time shape.
    open spec fn valid_shape(rows: usize, cols: usize) -> bool {
        rows == ROWS && cols == COLS
    }

    fn zero_mat(rows: usize, cols: usize) -> (r: Self) {
        Self::zero()
    }

    fn nrows(&self) -> (n: usize) {
        ROWS
    }

    fn ncols(&self) -> (n: usize) {
        COLS
    }

    fn get(&self, i: usize, j: usize) -> (r: Option<&T>) {
        if i >= ROWS || j >= COLS {
            None
        } else {
            Some(self.columns[j].index(i))
        }
    }
}

impl<T: Field, const ROWS: usize, const COLS: usize> MatVecMul<SVector<T, COLS>> for SMatrix<
    T,
    ROWS,
    COLS,
> {
    type Output = SVector<T, ROWS>;

    fn apply(&self, rhs: &SVector<T, COLS>) -> (r: SVector<T, ROWS>) {
        let r = SMatrix::mul_vec(self, rhs);
        proof {
            assert forall|i: int|
                0 <= i < ROWS implies r.model()[i] == dot_seq(
                Seq::new(self.cols(), |j: int| self.at(i, j)),
                rhs.model(),
            ) by {
                assert(self.row(i) =~= Seq::new(self.cols(), |j: int| self.at(i, j)));
            }
        }
        r
    }
}

impl<T: Field, const ROWS: usize, const COLS: usize> MatrixMut for SMatrix<T, ROWS, COLS> {
    fn get_mut(&mut self, i: usize, j: usize) -> (r: Option<&mut T>) {
        if i >= ROWS || j >= COLS {
            None
        } else {
            let c: &mut SVector<T, ROWS> = &mut self.columns[j];
            let slot = c.index_mut(i);
            Some(slot)
        }
    }
}

impl<T: Field, const ROWS: usize, const COLS: usize> FullMatrix for SMatrix<T, ROWS, COLS> {
    fn index(&self, i: usize, j: usize) -> (r: &T) {
        self.columns[j].index(i)
    }
}

impl<T: Field, const ROWS: usize, const COLS: usize> FullMatrixMut for SMatrix<T, ROWS, COLS> {
    fn index_mut(&mut self, i: usize, j: usize) -> (r: &mut T) {
        let c: &mut SVector<T, ROWS> = &mut self.columns[j];
        c.index_mut(i)
    }
}

} // verus!
