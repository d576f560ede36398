//! The matrix itself: a flat buffer and its two dimensions, with reads,
//! writes, the views of a row and a column, and growth by rows.

use crate::grid::{lemma_offset_in_range, Grid};
use crate::laws::lemma_stride_is_col;
use crate::scalar::Scalar;
use vstd::prelude::*;
use vstd::slice::slice_subrange;

verus! {

/// A dense matrix in row-major order. Each row is one point.
///
/// The buffer always holds `nrows * ncols` elements, and cell `(r, c)` is
/// the element at offset `r * ncols + c`.
#[derive(Debug)]
pub struct Matrix<T> {
    pub(crate) nrows: usize,
    pub(crate) ncols: usize,
    pub(crate) data: Vec<T>,
}

impl<T> View for Matrix<T> {
    type V = Grid<T>;

    open(crate) spec fn view(&self) -> Grid<T> {
        Grid { nrows: self.nrows as nat, ncols: self.ncols as nat, cells: self.data@ }
    }
}

/// Row and column of the cell at offset `i` in rows of `ncols` cells.
pub(crate) fn index_to_rc(i: usize, ncols: usize) -> (rc: (usize, usize))
    requires
        ncols > 0,
    ensures
        rc.0 == i / ncols,
        rc.1 == i % ncols,
{
    (i / ncols, i % ncols)
}

impl<T> Matrix<T> {
    /// The buffer holds exactly `nrows * ncols` elements. This holds of
    /// every matrix at all times.
    #[verifier::type_invariant]
    pub open spec fn wf(&self) -> bool {
        self@.wf()
    }

    /// Takes `data` as the cells of an `nrows` by `ncols` matrix, row after
    /// row. The buffer is moved, not copied.
    pub fn new(nrows: usize, ncols: usize, data: Vec<T>) -> (m: Matrix<T>)
        requires
            nrows * ncols == data@.len(),
        ensures
            m.wf(),
            m@ == (Grid { nrows: nrows as nat, ncols: ncols as nat, cells: data@ }),
    {
        Matrix { nrows, ncols, data }
    }

    /// A matrix in memory has no more cells than a buffer can hold.
    pub proof fn lemma_size_fits(&self)
        requires
            self.wf(),
        ensures
            self@.nrows * self@.ncols == self@.cells.len() <= usize::MAX,
    {
        assert(self.data.len() == self.data@.len());
    }

    /// The number of rows.
    pub fn nrows(&self) -> (n: usize)
        ensures
            n == self@.nrows,
            self.wf(),
    {
        proof {
            use_type_invariant(self);
        }
        self.nrows
    }

    /// The number of columns.
    pub fn ncols(&self) -> (n: usize)
        ensures
            n == self@.ncols,
            self.wf(),
    {
        proof {
            use_type_invariant(self);
        }
        self.ncols
    }

    /// The cells, row after row.
    pub fn as_slice(&self) -> (cells: &[T])
        ensures
            cells@ == self@.cells,
            self.wf(),
    {
        proof {
            use_type_invariant(self);
        }
        self.data.as_slice()
    }

    /// Offset of cell `(row, col)` in the buffer.
    pub(crate) fn index(&self, row: usize, col: usize) -> (i: usize)
        requires
            self.wf(),
            self@.in_bounds(row as int, col as int),
        ensures
            i == self@.offset(row as int, col as int),
            i < self@.cells.len(),
    {
        proof {
            self.lemma_size_fits();
            lemma_offset_in_range(self@.nrows, self@.ncols, row as int, col as int);
        }
        row * self.ncols + col
    }

    /// Moves the matrix out and leaves an empty one in its place.
    pub(crate) fn take(&mut self) -> (m: Matrix<T>)
        ensures
            m == *old(self),
            m.wf(),
    {
        proof {
            use_type_invariant(&*self);
        }
        let mut m: Matrix<T> = Matrix { nrows: 0, ncols: 0, data: Vec::new() };
        std::mem::swap(self, &mut m);
        m
    }

    /// The cells of row `r`, borrowed from the buffer.
    pub fn row_iter(&self, r: usize) -> (row: &[T])
        requires
            self@.ncols == 0 || r < self@.nrows,
        ensures
            row@ == self@.row(r as int),
    {
        proof {
            use_type_invariant(self);
        }
        if self.ncols == 0 {
            slice_subrange(self.data.as_slice(), 0, 0)
        } else {
            proof {
                self.lemma_size_fits();
                lemma_offset_in_range(self@.nrows, self@.ncols, r as int, 0);
            }
            let start: usize = r * self.ncols;
            slice_subrange(self.data.as_slice(), start, start + self.ncols)
        }
    }

    /// All rows in order, each borrowed from the buffer.
    pub fn iter_by_row(&self) -> (rows: Vec<&[T]>)
        requires
            self@.ncols > 0,
        ensures
            rows@.map_values(|row: &[T]| row@) == self@.rows(),
    {
        let mut rows: Vec<&[T]> = Vec::new();
        let mut r: usize = 0;
        while r < self.nrows
            invariant
                r <= self.nrows,
                rows@.len() == r,
                forall|k: int| 0 <= k < r ==> (#[trigger] rows@[k])@ == self@.row(k),
            decreases self.nrows - r,
        {
            rows.push(self.row_iter(r));
            r += 1;
        }
        proof {
            assert(rows@.map_values(|row: &[T]| row@) =~= self@.rows());
        }
        rows
    }
}

impl<T: Copy> Clone for Matrix<T> {
    /// A matrix of the same dimensions with a buffer of its own that holds
    /// the same cells.
    fn clone(&self) -> (m: Self)
        ensures
            m@ == self@,
    {
        proof {
            use_type_invariant(self);
        }
        Matrix::new_clone_vec(self.nrows, self.ncols, &self.data)
    }
}

impl<T: Copy> Matrix<T> {
    /// Like [`Matrix::new`], but copies `data` and leaves it with the caller.
    pub fn new_clone_vec(nrows: usize, ncols: usize, data: &Vec<T>) -> (m: Matrix<T>)
        requires
            nrows * ncols == data@.len(),
        ensures
            m.wf(),
            m@ == (Grid { nrows: nrows as nat, ncols: ncols as nat, cells: data@ }),
    {
        let mut copy: Vec<T> = Vec::with_capacity(data.len());
        let mut i: usize = 0;
        while i < data.len()
            invariant
                i <= data@.len(),
                copy@ == data@.take(i as int),
            decreases data@.len() - i,
        {
            copy.push(data[i]);
            i += 1;
        }
        proof {
            assert(copy@ =~= data@);
        }
        Matrix { nrows, ncols, data: copy }
    }

    /// The cell at `(row, col)`, or `None` where the matrix has no such cell.
    pub fn get(&self, row: usize, col: usize) -> (v: Option<T>)
        ensures
            v == self@.get(row as int, col as int),
    {
        proof {
            use_type_invariant(self);
        }
        if row >= self.nrows || col >= self.ncols {
            None
        } else {
            let i: usize = self.index(row, col);
            Some(self.data[i])
        }
    }

    /// Overwrites the cell at `(row, col)`.
    pub fn set(&mut self, row: usize, col: usize, data: T)
        requires
            row < old(self)@.nrows,
            col < old(self)@.ncols,
        ensures
            final(self).wf(),
            final(self)@ == old(self)@.set(row as int, col as int, data),
    {
        proof {
            use_type_invariant(&*self);
        }
        let i: usize = self.index(row, col);
        self.data[i] = data;
    }

    /// The cells met from offset `c` in steps of one row: column `c` where
    /// `c` is a column.
    pub fn col_iter(&self, c: usize) -> (col: Vec<T>)
        requires
            self@.ncols > 0,
        ensures
            col@ == self@.stride(c as int),
            c < self@.ncols ==> col@ == self@.col(c as int),
    {
        proof {
            use_type_invariant(self);
        }
        let len: usize = self.data.len();
        let count: usize = if c < len {
            (len - c - 1) / self.ncols + 1
        } else {
            0
        };
        let mut col: Vec<T> = Vec::with_capacity(count);
        let mut k: usize = 0;
        while k < count
            invariant
                self.wf(),
                self@.ncols > 0,
                len == self@.cells.len(),
                count == self@.stride_len(c as int),
                k <= count,
                col@ == self@.stride(c as int).take(k as int),
            decreases count - k,
        {
            proof {
                lemma_stride_in_range(len as int, self.ncols as int, c as int, k as int);
            }
            col.push(self.data[c + k * self.ncols]);
            k += 1;
        }
        proof {
            if c < self.ncols {
                lemma_stride_is_col(self@, c as int);
            }
        }
        col
    }

    /// Appends `row` as a new last row and leaves `row` empty.
    pub fn append_row(&mut self, row: &mut Vec<T>)
        requires
            old(row)@.len() == old(self)@.ncols,
            old(self)@.nrows < usize::MAX,
        ensures
            final(self).wf(),
            final(self)@ == old(self)@.append_row(old(row)@),
            final(row)@.len() == 0,
    {
        proof {
            use_type_invariant(&*self);
            assert((self.nrows + 1) * self.ncols == self.nrows * self.ncols + self.ncols)
                by (nonlinear_arith);
        }
        let grown: Matrix<T> = self.take();
        let mut data: Vec<T> = grown.data;
        data.append(row);
        *self = Matrix { nrows: grown.nrows + 1, ncols: grown.ncols, data };
    }
}

impl<T: Scalar> Matrix<T> {
    /// Appends the edge `[x0, y0, z0, x1, y1, z1]` as the two points
    /// `[x0, y0, z0, 1]` and `[x1, y1, z1, 1]`.
    pub fn append_edge(&mut self, edge: &Vec<T>)
        requires
            old(self)@.ncols == 4,
            edge@.len() == 6,
        ensures
            final(self).wf(),
            final(self)@ == old(self)@.append_edge(edge@),
            final(self)@.nrows == old(self)@.nrows + 2,
            forall|r: int, c: int|
                0 <= r < old(self)@.nrows && 0 <= c < 4 ==> #[trigger] final(self)@.at(r, c)
                    == old(self)@.at(r, c),
    {
        proof {
            use_type_invariant(&*self);
            self.lemma_size_fits();
        }
        let grown: Matrix<T> = self.take();
        let nrows: usize = grown.nrows;
        let mut data: Vec<T> = grown.data;
        data.push(edge[0]);
        data.push(edge[1]);
        data.push(edge[2]);
        data.push(T::one());
        data.push(edge[3]);
        data.push(edge[4]);
        data.push(edge[5]);
        data.push(T::one());
        proof {
            assert(data@ =~= old(self)@.cells + crate::grid::edge_rows(edge@));
            assert(old(self)@.nrows * old(self)@.ncols == nrows * 4);
            assert((nrows + 2) * 4 == nrows * 4 + 8);
        }
        *self = Matrix { nrows: nrows + 2, ncols: 4, data };
        proof {
            assert forall|r: int, c: int| 0 <= r < old(self)@.nrows && 0 <= c < 4 implies
                #[trigger] self@.at(r, c) == old(self)@.at(r, c) by {
                lemma_offset_in_range(old(self)@.nrows, 4, r, c);
            }
        }
    }
}

/// The `k`-th step of a walk from `start` in steps of `ncols` stays inside
/// `len` cells while `k` is below the walk's length.
proof fn lemma_stride_in_range(len: int, ncols: int, start: int, k: int)
    requires
        ncols > 0,
        0 <= start < len,
        0 <= k <= (len - start - 1) / ncols,
    ensures
        0 <= k * ncols,
        start + k * ncols < len,
{
    vstd::arithmetic::div_mod::lemma_fundamental_div_mod(len - start - 1, ncols);
    vstd::arithmetic::div_mod::lemma_mod_bound(len - start - 1, ncols);
    let q = (len - start - 1) / ncols;
    assert(k * ncols <= q * ncols) by (nonlinear_arith)
        requires
            k <= q,
            ncols > 0,
    ;
    assert(0 <= k * ncols) by (nonlinear_arith)
        requires
            0 <= k,
            ncols > 0,
    ;
}

} // verus!
