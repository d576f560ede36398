//! Matrix multiplication. A cell of a product is a dot product of one row and
//! one column, read in place from the two buffers.

use crate::grid::{dot, lemma_offset_in_range, lemma_row_cells, lemma_split_in_range};
use crate::matrix::{index_to_rc, Matrix};
use crate::scalar::Scalar;
use vstd::prelude::*;

verus! {

impl<T: Scalar> Matrix<T> {
    /// The dot product of row `r` of `self` and column `c` of `other`.
    fn row_dot_col(&self, r: usize, other: &Self, c: usize) -> (d: T)
        requires
            self.wf(),
            other.wf(),
            self@.ncols == other@.nrows,
            r < self@.nrows,
            c < other@.ncols,
        ensures
            d == dot(self@.row(r as int), other@.col(c as int)),
    {
        let n: usize = self.ncols;
        let m: usize = other.ncols;
        let ghost xs = self@.row(r as int);
        let ghost ys = other@.col(c as int);
        let mut acc: T = T::zero();
        let mut k: usize = 0;
        proof {
            self.lemma_size_fits();
            other.lemma_size_fits();
            lemma_row_cells(self@, r as int);
        }
        while k < n
            invariant
                self.wf(),
                other.wf(),
                n == self@.ncols == other@.nrows,
                m == other@.ncols,
                r < self@.nrows,
                c < m,
                k <= n,
                xs == self@.row(r as int),
                ys == other@.col(c as int),
                xs.len() == n,
                ys.len() == n,
                acc == dot(xs.take(k as int), ys.take(k as int)),
            decreases n - k,
        {
            proof {
                self.lemma_size_fits();
                other.lemma_size_fits();
                lemma_offset_in_range(self@.nrows, self@.ncols, r as int, k as int);
                lemma_offset_in_range(other@.nrows, other@.ncols, k as int, c as int);
            }
            let a: T = self.data[r * n + k];
            let b: T = other.data[k * m + c];
            acc = acc.plus(a.times(b));
            proof {
                assert(xs.take(k + 1).drop_last() =~= xs.take(k as int));
                assert(ys.take(k + 1).drop_last() =~= ys.take(k as int));
            }
            k += 1;
        }
        proof {
            assert(xs.take(n as int) =~= xs);
            assert(ys.take(n as int) =~= ys);
        }
        acc
    }

    /// The dot product of column `c` of `self` and row `r` of `other`.
    fn col_dot_row(&self, c: usize, other: &Self, r: usize) -> (d: T)
        requires
            self.wf(),
            other.wf(),
            self@.nrows == other@.ncols,
            c < self@.ncols,
            r < other@.nrows,
        ensures
            d == dot(self@.col(c as int), other@.row(r as int)),
    {
        let n: usize = self.nrows;
        let m: usize = self.ncols;
        let ghost xs = self@.col(c as int);
        let ghost ys = other@.row(r as int);
        let mut acc: T = T::zero();
        let mut k: usize = 0;
        proof {
            self.lemma_size_fits();
            other.lemma_size_fits();
            lemma_row_cells(other@, r as int);
        }
        while k < n
            invariant
                self.wf(),
                other.wf(),
                n == self@.nrows == other@.ncols,
                m == self@.ncols,
                r < other@.nrows,
                c < m,
                k <= n,
                xs == self@.col(c as int),
                ys == other@.row(r as int),
                xs.len() == n,
                ys.len() == n,
                acc == dot(xs.take(k as int), ys.take(k as int)),
            decreases n - k,
        {
            proof {
                self.lemma_size_fits();
                other.lemma_size_fits();
                lemma_offset_in_range(self@.nrows, self@.ncols, k as int, c as int);
                lemma_offset_in_range(other@.nrows, other@.ncols, r as int, k as int);
            }
            let a: T = self.data[k * m + c];
            let b: T = other.data[r * n + k];
            acc = acc.plus(a.times(b));
            proof {
                assert(xs.take(k + 1).drop_last() =~= xs.take(k as int));
                assert(ys.take(k + 1).drop_last() =~= ys.take(k as int));
            }
            k += 1;
        }
        proof {
            assert(xs.take(n as int) =~= xs);
            assert(ys.take(n as int) =~= ys);
        }
        acc
    }

    /// `self × other`.
    pub fn mul(&self, other: &Self) -> (p: Self)
        requires
            self@.ncols == other@.nrows,
            self@.nrows * other@.ncols <= usize::MAX,
        ensures
            p.wf(),
            p@ == self@.product(other@),
            p@.nrows == self@.nrows,
            p@.ncols == other@.ncols,
    {
        proof {
            use_type_invariant(self);
            use_type_invariant(other);
        }
        let frows: usize = self.nrows;
        let fcols: usize = other.ncols;
        let total: usize = frows * fcols;
        let ghost want = self@.product(other@).cells;
        let mut fdata: Vec<T> = Vec::new();
        let mut i: usize = 0;
        while i < total
            invariant
                self.wf(),
                other.wf(),
                self@.ncols == other@.nrows,
                frows == self@.nrows,
                fcols == other@.ncols,
                total == frows * fcols,
                i <= total,
                want == self@.product(other@).cells,
                fdata@ == want.take(i as int),
            decreases total - i,
        {
            proof {
                lemma_split_in_range(frows as nat, fcols as nat, i as int);
            }
            let (r, c) = index_to_rc(i, fcols);
            let d: T = self.row_dot_col(r, other, c);
            fdata.push(d);
            i += 1;
        }
        proof {
            assert(fdata@ =~= want);
        }
        Matrix::new(frows, fcols, fdata)
    }

    /// The product with the roles of rows and columns exchanged: cell
    /// `(r, c)` is the dot product of column `c` of `self` and row `r` of
    /// `other`.
    pub fn transposed_mul(&self, other: &Self) -> (p: Self)
        requires
            self@.nrows == other@.ncols,
            other@.nrows * self@.ncols <= usize::MAX,
        ensures
            p.wf(),
            p@ == self@.transposed_product(other@),
            p@.nrows == other@.nrows,
            p@.ncols == self@.ncols,
    {
        proof {
            use_type_invariant(self);
            use_type_invariant(other);
        }
        let frows: usize = other.nrows;
        let fcols: usize = self.ncols;
        let total: usize = frows * fcols;
        let ghost want = self@.transposed_product(other@).cells;
        let mut fdata: Vec<T> = Vec::new();
        let mut i: usize = 0;
        while i < total
            invariant
                self.wf(),
                other.wf(),
                self@.nrows == other@.ncols,
                frows == other@.nrows,
                fcols == self@.ncols,
                total == frows * fcols,
                i <= total,
                want == self@.transposed_product(other@).cells,
                fdata@ == want.take(i as int),
            decreases total - i,
        {
            proof {
                lemma_split_in_range(frows as nat, fcols as nat, i as int);
            }
            let (r, c) = index_to_rc(i, fcols);
            let d: T = self.col_dot_row(c, other, r);
            fdata.push(d);
            i += 1;
        }
        proof {
            assert(fdata@ =~= want);
        }
        Matrix::new(frows, fcols, fdata)
    }

    /// Replaces `b` by `a × b`.
    pub fn mul_mut_b(a: &Matrix<T>, b: &mut Matrix<T>)
        requires
            a@.ncols == old(b)@.nrows,
            a@.nrows * old(b)@.ncols <= usize::MAX,
        ensures
            final(b).wf(),
            final(b)@ == a@.product(old(b)@),
    {
        let p: Matrix<T> = a.mul(b);
        *b = p;
    }
}

} // verus!
