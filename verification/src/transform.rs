//! The identity and the 4 by 4 transforms of homogeneous points. A point row
//! `[x, y, z, 1]` times one of these matrices is the transformed point.

use crate::grid::{lemma_offset_in_range, lemma_offset_split, lemma_split_in_range, Grid};
use crate::matrix::{index_to_rc, Matrix};
use crate::scalar::Scalar;
use vstd::prelude::*;

verus! {

/// Cell `(r, c)` of an identity whose diagonal is set in its first `done`
/// rows only.
spec fn started_diagonal<T: Scalar>(done: int, r: int, c: int) -> T {
    if r == c && r < done {
        T::one_value()
    } else {
        T::zero_value()
    }
}

impl<T: Scalar> Matrix<T> {
    /// The identity matrix with `size` rows and columns.
    pub fn ident(size: usize) -> (m: Self)
        requires
            size * size <= usize::MAX,
        ensures
            m.wf(),
            m@ == Grid::<T>::identity(size as nat),
    {
        let total: usize = size * size;
        let mut zeros: Vec<T> = Vec::new();
        let mut n: usize = 0;
        while n < total
            invariant
                n <= total,
                zeros@.len() == n,
                forall|j: int| 0 <= j < n ==> zeros@[j] == T::zero_value(),
            decreases total - n,
        {
            zeros.push(T::zero());
            n += 1;
        }
        let mut m: Matrix<T> = Matrix::new(size, size, zeros);
        proof {
            assert forall|r: int, c: int| 0 <= r < size && 0 <= c < size implies #[trigger] m@.at(r, c)
                == started_diagonal::<T>(0, r, c) by {
                lemma_offset_in_range(size as nat, size as nat, r, c);
            }
        }
        let mut i: usize = 0;
        while i < size
            invariant
                i <= size,
                m.wf(),
                m@.nrows == size,
                m@.ncols == size,
                forall|r: int, c: int|
                    0 <= r < size && 0 <= c < size ==> #[trigger] m@.at(r, c)
                        == started_diagonal::<T>(i as int, r, c),
            decreases size - i,
        {
            let ghost before = m@;
            m.set(i, i, T::one());
            proof {
                assert forall|r: int, c: int| 0 <= r < size && 0 <= c < size implies #[trigger] m@.at(
                    r,
                    c,
                ) == started_diagonal::<T>(i + 1, r, c) by {
                    lemma_offset_in_range(size as nat, size as nat, r, c);
                    lemma_offset_in_range(size as nat, size as nat, i as int, i as int);
                    lemma_offset_split(size as nat, r, c);
                    lemma_offset_split(size as nat, i as int, i as int);
                    assert(before.at(r, c) == started_diagonal::<T>(i as int, r, c));
                }
            }
            i += 1;
        }
        proof {
            let want = Grid::<T>::identity(size as nat);
            assert forall|j: int| 0 <= j < m@.cells.len() implies m@.cells[j] == want.cells[j] by {
                lemma_split_in_range(size as nat, size as nat, j);
                let r = j / (size as int);
                let c = j % (size as int);
                assert(m@.at(r, c) == m@.cells[j]);
            }
            assert(m@.cells =~= want.cells);
        }
        m
    }

    /// Overwrites every cell: one where the row index equals the column
    /// index, zero elsewhere. The dimensions stay, square or not.
    pub fn to_ident(&mut self)
        ensures
            final(self).wf(),
            final(self)@ == Grid::<T>::diagonal(old(self)@.nrows, old(self)@.ncols),
    {
        proof {
            use_type_invariant(&*self);
        }
        let ncols: usize = self.ncols;
        let len: usize = self.data.len();
        let ghost want = Grid::<T>::diagonal(self@.nrows, self@.ncols).cells;
        let mut i: usize = 0;
        while i < len
            invariant
                self.wf(),
                self@.nrows == old(self)@.nrows,
                self@.ncols == old(self)@.ncols,
                ncols == self@.ncols,
                len == self@.cells.len(),
                i <= len,
                want == Grid::<T>::diagonal(self@.nrows, self@.ncols).cells,
                forall|j: int| 0 <= j < i ==> self@.cells[j] == want[j],
            decreases len - i,
        {
            proof {
                lemma_split_in_range(self@.nrows, self@.ncols, i as int);
            }
            let (r, c) = index_to_rc(i, ncols);
            let d: T = if r == c {
                T::one()
            } else {
                T::zero()
            };
            self.data[i] = d;
            i += 1;
        }
        proof {
            assert(self@.cells =~= want);
        }
    }

    /// The move by `(dx, dy, dz)`.
    pub fn mv(dx: T, dy: T, dz: T) -> (m: Matrix<T>)
        ensures
            m.wf(),
            m@ == Grid::displacement(dx, dy, dz),
    {
        let mut m: Matrix<T> = Matrix::ident(4);
        m.set(3, 0, dx);
        m.set(3, 1, dy);
        m.set(3, 2, dz);
        proof {
            assert(m@.cells =~= Grid::displacement(dx, dy, dz).cells);
        }
        m
    }

    /// The scaling by `(sx, sy, sz)`.
    pub fn scale(sx: T, sy: T, sz: T) -> (m: Matrix<T>)
        ensures
            m.wf(),
            m@ == Grid::scaling(sx, sy, sz),
    {
        let mut m: Matrix<T> = Matrix::ident(4);
        m.set(0, 0, sx);
        m.set(1, 1, sy);
        m.set(2, 2, sz);
        proof {
            assert(m@.cells =~= Grid::scaling(sx, sy, sz).cells);
        }
        m
    }

    /// The rotation about the x axis by the angle whose cosine and sine are
    /// `cos` and `sin`.
    pub fn rotatex(cos: T, sin: T) -> (m: Matrix<T>)
        ensures
            m.wf(),
            m@ == Grid::rotation_x(cos, sin),
    {
        let o: T = T::zero();
        let i: T = T::one();
        let n: T = sin.neg();
        let cells: Vec<T> = vec![
            i, o, o, o,
            o, cos, n, o,
            o, sin, cos, o,
            o, o, o, i,
        ];
        Matrix::new(4, 4, cells)
    }

    /// The rotation about the y axis by the angle whose cosine and sine are
    /// `cos` and `sin`.
    pub fn rotatey(cos: T, sin: T) -> (m: Matrix<T>)
        ensures
            m.wf(),
            m@ == Grid::rotation_y(cos, sin),
    {
        let o: T = T::zero();
        let i: T = T::one();
        let n: T = sin.neg();
        let cells: Vec<T> = vec![
            cos, o, sin, o,
            o, i, o, o,
            n, o, cos, o,
            o, o, o, i,
        ];
        Matrix::new(4, 4, cells)
    }

    /// The rotation about the z axis by the angle whose cosine and sine are
    /// `cos` and `sin`.
    pub fn rotatez(cos: T, sin: T) -> (m: Matrix<T>)
        ensures
            m.wf(),
            m@ == Grid::rotation_z(cos, sin),
    {
        let mut m: Matrix<T> = Matrix::ident(4);
        m.set(0, 0, cos);
        m.set(1, 1, cos);
        m.set(1, 0, sin);
        m.set(0, 1, sin.neg());
        proof {
            assert(m@.cells =~= Grid::rotation_z(cos, sin).cells);
        }
        m
    }
}

} // verus!
