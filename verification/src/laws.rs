//! What holds between the operations of a matrix, proved over its model.

use crate::grid::{
    dot, lemma_offset_in_range, lemma_offset_split, lemma_row_cells, lemma_split_in_range,
    lemma_tabulate_at, Grid,
};
use crate::scalar::{unital, Scalar};
use vstd::prelude::*;

verus! {

/// A cell that was written is read back, and every other cell reads as before.
pub proof fn lemma_get_after_set<T>(g: Grid<T>, r: int, c: int, v: T)
    requires
        g.wf(),
        g.in_bounds(r, c),
    ensures
        g.set(r, c, v).wf(),
        g.set(r, c, v).get(r, c) == Some(v),
        forall|r2: int, c2: int|
            (r2, c2) != (r, c) ==> #[trigger] g.set(r, c, v).get(r2, c2) == g.get(r2, c2),
{
    lemma_offset_in_range(g.nrows, g.ncols, r, c);
    assert forall|r2: int, c2: int| (r2, c2) != (r, c) implies #[trigger] g.set(r, c, v).get(r2, c2)
        == g.get(r2, c2) by {
        if g.in_bounds(r2, c2) {
            lemma_offset_in_range(g.nrows, g.ncols, r2, c2);
            lemma_offset_split(g.ncols, r, c);
            lemma_offset_split(g.ncols, r2, c2);
        }
    }
}

/// A product has the rows of its left factor and the columns of its right
/// factor, whatever the factors hold.
pub proof fn lemma_product_shape<T: Scalar>(a: Grid<T>, b: Grid<T>)
    ensures
        a.product(b).wf(),
        a.product(b).nrows == a.nrows,
        a.product(b).ncols == b.ncols,
        forall|r: int, c: int|
            0 <= r < a.nrows && 0 <= c < b.ncols ==> #[trigger] a.product(b).at(r, c) == dot(
                a.row(r),
                b.col(c),
            ),
{
    assert forall|r: int, c: int| 0 <= r < a.nrows && 0 <= c < b.ncols implies #[trigger] a.product(
        b,
    ).at(r, c) == dot(a.row(r), b.col(c)) by {
        lemma_tabulate_at(a.nrows, b.ncols, |r: int, c: int| dot(a.row(r), b.col(c)), r, c);
    }
}

/// A product with rows and columns exchanged has the rows of its right
/// factor and the columns of its left factor.
pub proof fn lemma_transposed_product_shape<T: Scalar>(a: Grid<T>, b: Grid<T>)
    ensures
        a.transposed_product(b).wf(),
        a.transposed_product(b).nrows == b.nrows,
        a.transposed_product(b).ncols == a.ncols,
        forall|r: int, c: int|
            0 <= r < b.nrows && 0 <= c < a.ncols ==> #[trigger] a.transposed_product(b).at(r, c)
                == dot(a.col(c), b.row(r)),
{
    assert forall|r: int, c: int| 0 <= r < b.nrows && 0 <= c < a.ncols implies
        #[trigger] a.transposed_product(b).at(r, c) == dot(a.col(c), b.row(r)) by {
        lemma_tabulate_at(b.nrows, a.ncols, |r: int, c: int| dot(a.col(c), b.row(r)), r, c);
    }
}

/// Where the left factor has no column, every cell of the product is zero:
/// a sum of no terms.
pub proof fn lemma_product_over_nothing<T: Scalar>(a: Grid<T>, b: Grid<T>)
    requires
        a.wf(),
        a.ncols == 0,
    ensures
        forall|r: int, c: int|
            0 <= r < a.nrows && 0 <= c < b.ncols ==> #[trigger] a.product(b).at(r, c)
                == T::zero_value(),
{
    lemma_product_shape(a, b);
    assert forall|r: int, c: int| 0 <= r < a.nrows && 0 <= c < b.ncols implies #[trigger] a.product(
        b,
    ).at(r, c) == T::zero_value() by {
        lemma_row_cells(a, r);
    }
}

/// Where all products but the one at `r` have a zero factor, the dot product
/// is that one product.
pub proof fn lemma_dot_single<T: Scalar>(xs: Seq<T>, ys: Seq<T>, r: int)
    requires
        unital::<T>(),
        xs.len() == ys.len(),
        0 <= r < xs.len(),
        forall|k: int|
            0 <= k < xs.len() && k != r ==> xs[k] == T::zero_value() || ys[k] == T::zero_value(),
    ensures
        dot(xs, ys) == xs[r].product(ys[r]),
{
    lemma_dot_single_upto(xs, ys, r, xs.len() as int);
    assert(xs.take(xs.len() as int) =~= xs);
    assert(ys.take(ys.len() as int) =~= ys);
}

proof fn lemma_dot_single_upto<T: Scalar>(xs: Seq<T>, ys: Seq<T>, r: int, j: int)
    requires
        unital::<T>(),
        xs.len() == ys.len(),
        0 <= r < xs.len(),
        0 <= j <= xs.len(),
        forall|k: int|
            0 <= k < xs.len() && k != r ==> xs[k] == T::zero_value() || ys[k] == T::zero_value(),
    ensures
        dot(xs.take(j), ys.take(j)) == if j <= r {
            T::zero_value()
        } else {
            xs[r].product(ys[r])
        },
    decreases j,
{
    if j > 0 {
        lemma_dot_single_upto(xs, ys, r, j - 1);
        assert(xs.take(j).drop_last() =~= xs.take(j - 1));
        assert(ys.take(j).drop_last() =~= ys.take(j - 1));
    }
}

/// The cells of an identity matrix.
pub proof fn lemma_identity_cells<T: Scalar>(n: nat, r: int, c: int)
    requires
        0 <= r < n,
        0 <= c < n,
    ensures
        Grid::<T>::identity(n).wf(),
        Grid::<T>::identity(n).at(r, c) == if r == c {
            T::one_value()
        } else {
            T::zero_value()
        },
{
    lemma_tabulate_at(
        n,
        n,
        |r: int, c: int|
            if r == c {
                T::one_value()
            } else {
                T::zero_value()
            },
        r,
        c,
    );
}

/// The identity is neutral on the left: `identity(n) × m == m` for every `m`
/// with `n` rows, over scalars that obey the unit laws.
pub proof fn lemma_identity_left<T: Scalar>(m: Grid<T>)
    requires
        unital::<T>(),
        m.wf(),
    ensures
        Grid::<T>::identity(m.nrows).product(m) == m,
{
    let id = Grid::<T>::identity(m.nrows);
    let p = id.product(m);
    assert forall|i: int| 0 <= i < p.cells.len() implies p.cells[i] == m.cells[i] by {
        lemma_split_in_range(m.nrows, m.ncols, i);
        let r = i / (m.ncols as int);
        let c = i % (m.ncols as int);
        let xs = id.row(r);
        let ys = m.col(c);
        lemma_identity_cells::<T>(m.nrows, r, r);
        lemma_row_cells(id, r);
        assert forall|k: int| 0 <= k < xs.len() && k != r implies xs[k] == T::zero_value()
            || ys[k] == T::zero_value() by {
            lemma_identity_cells::<T>(m.nrows, r, k);
        }
        lemma_dot_single(xs, ys, r);
    }
    assert(p.cells =~= m.cells);
}

/// The identity is neutral on the right: `m × identity(n) == m` for every
/// `m` with `n` columns, over scalars that obey the unit laws.
pub proof fn lemma_identity_right<T: Scalar>(m: Grid<T>)
    requires
        unital::<T>(),
        m.wf(),
    ensures
        m.product(Grid::<T>::identity(m.ncols)) == m,
{
    let id = Grid::<T>::identity(m.ncols);
    let p = m.product(id);
    assert forall|i: int| 0 <= i < p.cells.len() implies p.cells[i] == m.cells[i] by {
        lemma_split_in_range(m.nrows, m.ncols, i);
        let r = i / (m.ncols as int);
        let c = i % (m.ncols as int);
        let xs = m.row(r);
        let ys = id.col(c);
        lemma_identity_cells::<T>(m.ncols, c, c);
        lemma_row_cells(m, r);
        assert forall|k: int| 0 <= k < xs.len() && k != c implies xs[k] == T::zero_value()
            || ys[k] == T::zero_value() by {
            lemma_identity_cells::<T>(m.ncols, k, c);
        }
        lemma_dot_single(xs, ys, c);
    }
    assert(p.cells =~= m.cells);
}

/// The cells of a transposed grid.
pub proof fn lemma_transposed_cells<T>(g: Grid<T>, r: int, c: int)
    requires
        0 <= r < g.ncols,
        0 <= c < g.nrows,
    ensures
        g.transposed().wf(),
        g.transposed().nrows == g.ncols,
        g.transposed().ncols == g.nrows,
        g.transposed().at(r, c) == g.at(c, r),
{
    lemma_tabulate_at(g.ncols, g.nrows, |r: int, c: int| g.at(c, r), r, c);
}

/// A row of the transposed grid is a column of the grid, and a column of the
/// transposed grid is a row of the grid.
pub proof fn lemma_transposed_lines<T>(g: Grid<T>)
    requires
        g.wf(),
    ensures
        forall|c: int| 0 <= c < g.ncols ==> #[trigger] g.transposed().row(c) == g.col(c),
        forall|r: int| 0 <= r < g.nrows ==> #[trigger] g.transposed().col(r) == g.row(r),
{
    let t = g.transposed();
    assert forall|c: int| 0 <= c < g.ncols implies #[trigger] t.row(c) == g.col(c) by {
        lemma_row_cells(t, c);
        assert forall|k: int| 0 <= k < g.nrows implies t.row(c)[k] == g.col(c)[k] by {
            lemma_transposed_cells(g, c, k);
        }
    }
    assert forall|r: int| 0 <= r < g.nrows implies #[trigger] t.col(r) == g.row(r) by {
        lemma_row_cells(g, r);
        assert forall|k: int| 0 <= k < g.ncols implies t.col(r)[k] == g.row(r)[k] by {
            lemma_transposed_cells(g, k, r);
        }
    }
}

/// The product with rows and columns exchanged is the transpose of the
/// product of the transposes.
pub proof fn lemma_transposed_product<T: Scalar>(a: Grid<T>, b: Grid<T>)
    requires
        a.wf(),
        b.wf(),
        a.nrows == b.ncols,
    ensures
        a.transposed_product(b) == a.transposed().product(b.transposed()).transposed(),
{
    let tp = a.transposed_product(b);
    let p = a.transposed().product(b.transposed());
    lemma_transposed_lines(a);
    lemma_transposed_lines(b);
    assert forall|i: int| 0 <= i < tp.cells.len() implies tp.cells[i] == p.transposed().cells[i] by {
        lemma_split_in_range(b.nrows, a.ncols, i);
        lemma_product_shape(a.transposed(), b.transposed());
    }
    assert(tp.cells =~= p.transposed().cells);
}

/// Where the product of the transposes is its own transpose, the product
/// with rows and columns exchanged equals it.
pub proof fn lemma_transposed_product_symmetric<T: Scalar>(a: Grid<T>, b: Grid<T>)
    requires
        a.wf(),
        b.wf(),
        a.nrows == b.ncols,
        a.transposed().product(b.transposed()) == a.transposed().product(
            b.transposed(),
        ).transposed(),
    ensures
        a.transposed_product(b) == a.transposed().product(b.transposed()),
{
    lemma_transposed_product(a, b);
}

/// An edge appended to a matrix of four columns adds two rows and leaves
/// every row that was there as it was.
pub proof fn lemma_append_edge_keeps_rows<T: Scalar>(g: Grid<T>, edge: Seq<T>)
    requires
        g.wf(),
        g.ncols == 4,
    ensures
        g.append_edge(edge).wf(),
        g.append_edge(edge).nrows == g.nrows + 2,
        g.append_edge(edge).ncols == 4,
        forall|r: int| 0 <= r < g.nrows ==> #[trigger] g.append_edge(edge).row(r) == g.row(r),
{
    let h = g.append_edge(edge);
    assert(h.nrows * h.ncols == (g.nrows + 2) * 4);
    assert forall|r: int| 0 <= r < g.nrows implies #[trigger] h.row(r) == g.row(r) by {
        lemma_row_cells(g, r);
        lemma_row_cells(h, r);
    }
}

/// In a well-formed grid the walk from the top of column `c` in steps of one
/// row is column `c`.
pub proof fn lemma_stride_is_col<T>(g: Grid<T>, c: int)
    requires
        g.wf(),
        0 <= c < g.ncols,
    ensures
        g.stride(c) == g.col(c),
{
    let n = g.ncols as int;
    if g.nrows == 0 {
        assert(g.nrows * g.ncols == 0);
    } else {
        lemma_offset_in_range(g.nrows, g.ncols, g.nrows - 1, c);
        let rest = g.cells.len() - c - 1;
        assert(rest == (g.nrows - 1) * n + (n - c - 1)) by (nonlinear_arith)
            requires
                rest == g.nrows * n - c - 1,
        ;
        lemma_offset_split(g.ncols, g.nrows - 1, n - c - 1);
    }
    assert(g.stride_len(c) == g.nrows);
    assert forall|k: int| 0 <= k < g.nrows implies g.stride(c)[k] == g.col(c)[k] by {
        assert(c + k * n == k * n + c);
    }
    assert(g.stride(c) =~= g.col(c));
}

/// A row appended to a grid is its new last row, and every row that was
/// there is as it was.
pub proof fn lemma_append_row_keeps_rows<T>(g: Grid<T>, row: Seq<T>)
    requires
        g.wf(),
        row.len() == g.ncols,
    ensures
        g.append_row(row).wf(),
        g.append_row(row).row(g.nrows as int) == row,
        forall|r: int| 0 <= r < g.nrows ==> #[trigger] g.append_row(row).row(r) == g.row(r),
{
    let h = g.append_row(row);
    assert((g.nrows + 1) * g.ncols == g.nrows * g.ncols + g.ncols) by (nonlinear_arith);
    assert(h.row(g.nrows as int) =~= row);
    assert forall|r: int| 0 <= r < g.nrows implies #[trigger] h.row(r) == g.row(r) by {
        lemma_row_cells(g, r);
        lemma_row_cells(h, r);
        assert forall|k: int| 0 <= k < g.ncols implies h.row(r)[k] == g.row(r)[k] by {
            lemma_offset_in_range(g.nrows, g.ncols, r, k);
        }
        assert(h.row(r) =~= g.row(r));
    }
}

/// A polyline through `n` points adds `2 * (n - 1)` rows where `n > 1` and
/// none otherwise, keeps the column count, and leaves the cells that were
/// there where they were.
pub proof fn lemma_polyline_rows<T: Scalar>(g: Grid<T>, points: Seq<(T, T)>, z: T)
    requires
        g.wf(),
        points.len() >= 2 ==> g.ncols == 4,
    ensures
        g.add_polyline(points, z).wf(),
        g.add_polyline(points, z).ncols == g.ncols,
        points.len() > 1 ==> g.add_polyline(points, z).nrows == g.nrows + 2 * (points.len() - 1),
        points.len() <= 1 ==> g.add_polyline(points, z).nrows == g.nrows,
        g.add_polyline(points, z).cells.len() >= g.cells.len(),
        g.add_polyline(points, z).cells.subrange(0, g.cells.len() as int) == g.cells,
    decreases points.len(),
{
    if points.len() >= 2 {
        lemma_polyline_rows(g, points.drop_last(), z);
        let shorter = g.add_polyline(points.drop_last(), z);
        let longer = g.add_polyline(points, z);
        assert(longer.nrows * longer.ncols == (shorter.nrows + 2) * 4);
        assert(longer.cells.subrange(0, g.cells.len() as int) =~= shorter.cells.subrange(
            0,
            g.cells.len() as int,
        ));
    }
}

} // verus!
