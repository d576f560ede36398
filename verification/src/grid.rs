//! The mathematical model of a matrix: its two dimensions and its cells, row
//! after row. The contracts of the executable matrix speak of this model.

use crate::scalar::Scalar;
use vstd::prelude::*;

verus! {

/// `nrows * ncols` cells in row-major order: cell `(r, c)` is `cells[r * ncols + c]`.
pub struct Grid<T> {
    pub nrows: nat,
    pub ncols: nat,
    pub cells: Seq<T>,
}

impl<T> Grid<T> {
    /// There are exactly as many cells as the dimensions ask for.
    pub open spec fn wf(self) -> bool {
        self.cells.len() == self.nrows * self.ncols
    }

    pub open spec fn in_bounds(self, r: int, c: int) -> bool {
        0 <= r < self.nrows && 0 <= c < self.ncols
    }

    /// Where cell `(r, c)` lies in `cells`.
    pub open spec fn offset(self, r: int, c: int) -> int {
        r * self.ncols + c
    }

    pub open spec fn at(self, r: int, c: int) -> T {
        self.cells[self.offset(r, c)]
    }

    /// The cell at `(r, c)`, if there is one.
    pub open spec fn get(self, r: int, c: int) -> Option<T> {
        if self.in_bounds(r, c) {
            Some(self.at(r, c))
        } else {
            None
        }
    }

    /// The grid with cell `(r, c)` replaced by `v`.
    pub open spec fn set(self, r: int, c: int, v: T) -> Grid<T> {
        Grid { nrows: self.nrows, ncols: self.ncols, cells: self.cells.update(self.offset(r, c), v) }
    }

    /// The `ncols` neighbouring cells of row `r`.
    pub open spec fn row(self, r: int) -> Seq<T> {
        self.cells.subrange(r * self.ncols, r * self.ncols + self.ncols)
    }

    /// The cells of column `c`, top to bottom.
    pub open spec fn col(self, c: int) -> Seq<T> {
        Seq::new(self.nrows, |k: int| self.at(k, c))
    }

    /// How many cells a walk from `start` in steps of `ncols` meets.
    pub open spec fn stride_len(self, start: int) -> nat {
        if 0 <= start < self.cells.len() && self.ncols > 0 {
            ((self.cells.len() - start - 1) / (self.ncols as int) + 1) as nat
        } else {
            0
        }
    }

    /// Every `ncols`-th cell, beginning with `cells[start]`.
    pub open spec fn stride(self, start: int) -> Seq<T> {
        Seq::new(self.stride_len(start), |k: int| self.cells[start + k * self.ncols])
    }

    /// All rows, in order.
    pub open spec fn rows(self) -> Seq<Seq<T>> {
        Seq::new(self.nrows, |r: int| self.row(r))
    }

    /// The grid whose cell `(r, c)` is `f(r, c)`.
    pub open spec fn tabulate(nrows: nat, ncols: nat, f: spec_fn(int, int) -> T) -> Grid<T> {
        Grid {
            nrows,
            ncols,
            cells: Seq::new(nrows * ncols, |i: int| f(i / (ncols as int), i % (ncols as int))),
        }
    }

    /// One more row at the bottom.
    pub open spec fn append_row(self, row: Seq<T>) -> Grid<T> {
        Grid { nrows: self.nrows + 1, ncols: self.ncols, cells: self.cells + row }
    }

    /// Rows and columns exchanged.
    pub open spec fn transposed(self) -> Grid<T> {
        Grid::tabulate(self.ncols, self.nrows, |r: int, c: int| self.at(c, r))
    }
}

/// The sum of the products of corresponding elements, accumulated from the
/// left and starting from zero.
pub open spec fn dot<T: Scalar>(xs: Seq<T>, ys: Seq<T>) -> T
    recommends
        xs.len() == ys.len(),
    decreases xs.len(),
{
    if xs.len() == 0 {
        T::zero_value()
    } else {
        dot(xs.drop_last(), ys.drop_last()).sum(xs.last().product(ys.last()))
    }
}

/// The two homogeneous rows `[x0, y0, z0, 1]` and `[x1, y1, z1, 1]` of the
/// edge `[x0, y0, z0, x1, y1, z1]`.
pub open spec fn edge_rows<T: Scalar>(edge: Seq<T>) -> Seq<T>
    recommends
        edge.len() == 6,
{
    seq![
        edge[0],
        edge[1],
        edge[2],
        T::one_value(),
        edge[3],
        edge[4],
        edge[5],
        T::one_value(),
    ]
}

/// The edge from `(p.0, p.1, z)` to `(q.0, q.1, z)`.
pub open spec fn segment<T>(p: (T, T), q: (T, T), z: T) -> Seq<T> {
    seq![p.0, p.1, z, q.0, q.1, z]
}

impl<T: Scalar> Grid<T> {
    /// One on the cells whose row index equals their column index, zero elsewhere.
    pub open spec fn diagonal(nrows: nat, ncols: nat) -> Grid<T> {
        Grid::tabulate(
            nrows,
            ncols,
            |r: int, c: int|
                if r == c {
                    T::one_value()
                } else {
                    T::zero_value()
                },
        )
    }

    pub open spec fn identity(size: nat) -> Grid<T> {
        Grid::diagonal(size, size)
    }

    /// The two rows of `edge` at the bottom.
    pub open spec fn append_edge(self, edge: Seq<T>) -> Grid<T> {
        Grid { nrows: self.nrows + 2, ncols: self.ncols, cells: self.cells + edge_rows(edge) }
    }

    /// One edge for each pair of neighbouring points, all at height `z`.
    pub open spec fn add_polyline(self, points: Seq<(T, T)>, z: T) -> Grid<T>
        decreases points.len(),
    {
        if points.len() < 2 {
            self
        } else {
            self.add_polyline(points.drop_last(), z).append_edge(
                segment(points[points.len() - 2], points[points.len() - 1], z),
            )
        }
    }

    /// `self × other`: cell `(r, c)` is the dot product of row `r` of `self`
    /// and column `c` of `other`.
    pub open spec fn product(self, other: Grid<T>) -> Grid<T> {
        Grid::tabulate(
            self.nrows,
            other.ncols,
            |r: int, c: int| dot(self.row(r), other.col(c)),
        )
    }

    /// Cell `(r, c)` is the dot product of column `c` of `self` and row `r` of
    /// `other`.
    pub open spec fn transposed_product(self, other: Grid<T>) -> Grid<T> {
        Grid::tabulate(
            other.nrows,
            self.ncols,
            |r: int, c: int| dot(self.col(c), other.row(r)),
        )
    }

    /// The identity with `dx`, `dy`, `dz` in its last row.
    pub open spec fn displacement(dx: T, dy: T, dz: T) -> Grid<T> {
        let o = T::zero_value();
        let i = T::one_value();
        Grid {
            nrows: 4,
            ncols: 4,
            cells: seq![
                i, o, o, o,
                o, i, o, o,
                o, o, i, o,
                dx, dy, dz, i,
            ],
        }
    }

    pub open spec fn scaling(sx: T, sy: T, sz: T) -> Grid<T> {
        let o = T::zero_value();
        let i = T::one_value();
        Grid {
            nrows: 4,
            ncols: 4,
            cells: seq![
                sx, o, o, o,
                o, sy, o, o,
                o, o, sz, o,
                o, o, o, i,
            ],
        }
    }

    /// Rotation about the x axis, given the cosine and the sine of the angle.
    pub open spec fn rotation_x(cos: T, sin: T) -> Grid<T> {
        let o = T::zero_value();
        let i = T::one_value();
        let n = sin.negation();
        Grid {
            nrows: 4,
            ncols: 4,
            cells: seq![
                i, o, o, o,
                o, cos, n, o,
                o, sin, cos, o,
                o, o, o, i,
            ],
        }
    }

    /// Rotation about the y axis, given the cosine and the sine of the angle.
    pub open spec fn rotation_y(cos: T, sin: T) -> Grid<T> {
        let o = T::zero_value();
        let i = T::one_value();
        let n = sin.negation();
        Grid {
            nrows: 4,
            ncols: 4,
            cells: seq![
                cos, o, sin, o,
                o, i, o, o,
                n, o, cos, o,
                o, o, o, i,
            ],
        }
    }

    /// Rotation about the z axis, given the cosine and the sine of the angle.
    pub open spec fn rotation_z(cos: T, sin: T) -> Grid<T> {
        let o = T::zero_value();
        let i = T::one_value();
        let n = sin.negation();
        Grid {
            nrows: 4,
            ncols: 4,
            cells: seq![
                cos, n, o, o,
                sin, cos, o, o,
                o, o, i, o,
                o, o, o, i,
            ],
        }
    }
}

/// Cell `(r, c)` of an `nrows` by `ncols` grid lies inside its cells.
pub proof fn lemma_offset_in_range(nrows: nat, ncols: nat, r: int, c: int)
    requires
        0 <= r < nrows,
        0 <= c < ncols,
    ensures
        0 <= r * ncols + c < nrows * ncols,
        r * ncols + ncols <= nrows * ncols,
{
    assert(r * ncols + ncols <= nrows * ncols) by (nonlinear_arith)
        requires
            0 <= r < nrows,
            0 <= ncols,
    ;
    assert(0 <= r * ncols) by (nonlinear_arith)
        requires
            0 <= r,
            0 <= ncols,
    ;
}

/// A row of a well-formed grid has `ncols` cells, those of that row.
pub proof fn lemma_row_cells<T>(g: Grid<T>, r: int)
    requires
        g.wf(),
        0 <= r < g.nrows,
    ensures
        g.row(r).len() == g.ncols,
        forall|k: int| 0 <= k < g.ncols ==> #[trigger] g.row(r)[k] == g.at(r, k),
{
    assert(0 <= r * g.ncols && r * g.ncols + g.ncols <= g.nrows * g.ncols) by (nonlinear_arith)
        requires
            0 <= r < g.nrows,
            0 <= g.ncols,
    ;
}

/// An offset determines its row and its column.
pub proof fn lemma_offset_split(ncols: nat, r: int, c: int)
    requires
        0 <= c < ncols,
    ensures
        (r * ncols + c) / (ncols as int) == r,
        (r * ncols + c) % (ncols as int) == c,
{
    vstd::arithmetic::div_mod::lemma_fundamental_div_mod_converse(
        r * ncols + c,
        ncols as int,
        r,
        c,
    );
}

/// Every offset below `nrows * ncols` is that of a cell.
pub proof fn lemma_split_in_range(nrows: nat, ncols: nat, i: int)
    requires
        0 <= i < nrows * ncols,
    ensures
        ncols > 0,
        0 <= i / (ncols as int) < nrows,
        0 <= i % (ncols as int) < ncols,
        i == (i / (ncols as int)) * ncols + i % (ncols as int),
{
    assert(ncols > 0) by (nonlinear_arith)
        requires
            0 <= i < nrows * ncols,
    ;
    let d = ncols as int;
    vstd::arithmetic::div_mod::lemma_fundamental_div_mod(i, d);
    vstd::arithmetic::div_mod::lemma_mod_bound(i, d);
    let q = i / d;
    assert(d * q == q * d) by (nonlinear_arith);
    assert(0 <= q < nrows) by (nonlinear_arith)
        requires
            0 <= i < nrows * d,
            i == q * d + i % d,
            0 <= i % d < d,
    ;
}

/// What `tabulate` puts into cell `(r, c)`.
pub proof fn lemma_tabulate_at<T>(nrows: nat, ncols: nat, f: spec_fn(int, int) -> T, r: int, c: int)
    requires
        0 <= r < nrows,
        0 <= c < ncols,
    ensures
        Grid::tabulate(nrows, ncols, f).wf(),
        Grid::tabulate(nrows, ncols, f).at(r, c) == f(r, c),
{
    lemma_offset_in_range(nrows, ncols, r, c);
    lemma_offset_split(ncols, r, c);
}

} // verus!
