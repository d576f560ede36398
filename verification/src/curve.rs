//! Curves as edge lists: a sampled curve becomes one edge for each pair of
//! neighbouring samples.
//!
//! The samples come from the caller: the points of a polyline, the points of
//! the unit circle, or the parameters at which a cubic is evaluated.

use crate::grid::segment;
use crate::laws::lemma_polyline_rows;
use crate::matrix::Matrix;
use crate::scalar::Scalar;
use vstd::prelude::*;

verus! {

/// `a·t³ + b·t² + c·t + d`, each power built up by repeated multiplication
/// and the terms added from the left.
pub open spec fn cubic_value<T: Scalar>(a: T, b: T, c: T, d: T, t: T) -> T {
    a.product(t).product(t).product(t).sum(b.product(t).product(t)).sum(c.product(t)).sum(d)
}

/// The point of the curve with the coefficients `xs` and `ys` at `t`.
pub open spec fn cubic_point<T: Scalar>(xs: (T, T, T, T), ys: (T, T, T, T), t: T) -> (T, T) {
    (cubic_value(xs.0, xs.1, xs.2, xs.3, t), cubic_value(ys.0, ys.1, ys.2, ys.3, t))
}

/// The point `unit` of the unit circle, scaled by `radius` and moved to the
/// centre `(x, y)`.
pub open spec fn circle_point<T: Scalar>(x: T, y: T, radius: T, unit: (T, T)) -> (T, T) {
    (radius.product(unit.0).sum(x), radius.product(unit.1).sum(y))
}

/// The cubic polynomial with coefficients `a`, `b`, `c`, `d` at `t`.
pub fn cubic<T: Scalar>(a: T, b: T, c: T, d: T, t: T) -> (v: T)
    ensures
        v == cubic_value(a, b, c, d, t),
{
    a.times(t).times(t).times(t).plus(b.times(t).times(t)).plus(c.times(t)).plus(d)
}

impl<T: Scalar> Matrix<T> {
    /// Appends the polyline through `points`, in order, at height `z`: the
    /// edge from each point to the next. Fewer than two points give no edge.
    pub fn add_parametric(&mut self, points: &Vec<(T, T)>, z: T)
        requires
            points@.len() >= 2 ==> old(self)@.ncols == 4,
        ensures
            final(self).wf(),
            final(self)@ == old(self)@.add_polyline(points@, z),
            final(self)@.ncols == old(self)@.ncols,
            points@.len() > 1 ==> final(self)@.nrows == old(self)@.nrows + 2 * (points@.len() - 1),
            points@.len() <= 1 ==> final(self)@.nrows == old(self)@.nrows,
            final(self)@.cells.subrange(0, old(self)@.cells.len() as int) == old(self)@.cells,
    {
        proof {
            use_type_invariant(&*self);
            lemma_polyline_rows(old(self)@, points@, z);
        }
        if points.len() < 2 {
            return ;
        }
        let mut i: usize = 1;
        while i < points.len()
            invariant
                1 <= i <= points@.len(),
                self.wf(),
                self@.ncols == 4,
                self@ == old(self)@.add_polyline(points@.take(i as int), z),
            decreases points@.len() - i,
        {
            let (x0, y0) = points[i - 1];
            let (x1, y1) = points[i];
            let edge: Vec<T> = vec![x0, y0, z, x1, y1, z];
            proof {
                let upto = points@.take(i + 1);
                assert(upto.drop_last() =~= points@.take(i as int));
            }
            self.append_edge(&edge);
            i += 1;
        }
        proof {
            assert(points@.take(points@.len() as int) =~= points@);
        }
    }

    /// Appends the circle around `center` with the given radius, at the
    /// height of its centre. `unit` holds the points `(cos, sin)` of the unit
    /// circle through which the circle is drawn, in order.
    pub fn add_circle(&mut self, center: (T, T, T), radius: T, unit: &Vec<(T, T)>)
        requires
            unit@.len() >= 2 ==> old(self)@.ncols == 4,
        ensures
            final(self).wf(),
            final(self)@ == old(self)@.add_polyline(
                unit@.map_values(|u: (T, T)| circle_point(center.0, center.1, radius, u)),
                center.2,
            ),
            final(self)@.ncols == old(self)@.ncols,
            unit@.len() > 1 ==> final(self)@.nrows == old(self)@.nrows + 2 * (unit@.len() - 1),
            unit@.len() <= 1 ==> final(self)@.nrows == old(self)@.nrows,
    {
        let (x, y, z) = center;
        let ghost want = unit@.map_values(|u: (T, T)| circle_point(x, y, radius, u));
        let mut points: Vec<(T, T)> = Vec::with_capacity(unit.len());
        let mut i: usize = 0;
        while i < unit.len()
            invariant
                i <= unit@.len(),
                want == unit@.map_values(|u: (T, T)| circle_point(x, y, radius, u)),
                points@ == want.take(i as int),
            decreases unit@.len() - i,
        {
            let (c, s) = unit[i];
            points.push((radius.times(c).plus(x), radius.times(s).plus(y)));
            i += 1;
        }
        proof {
            assert(points@ =~= want);
        }
        self.add_parametric(&points, z);
    }

    /// Appends the cubic curve `t -> (x(t), y(t))` at height zero, where
    /// `x(t) = xs.0·t³ + xs.1·t² + xs.2·t + xs.3` and `y` likewise from `ys`,
    /// drawn through its points at the parameters `ts`, in order.
    pub fn add_cubic(&mut self, xs: (T, T, T, T), ys: (T, T, T, T), ts: &Vec<T>)
        requires
            ts@.len() >= 2 ==> old(self)@.ncols == 4,
        ensures
            final(self).wf(),
            final(self)@ == old(self)@.add_polyline(
                ts@.map_values(|t: T| cubic_point(xs, ys, t)),
                T::zero_value(),
            ),
            final(self)@.ncols == old(self)@.ncols,
            ts@.len() > 1 ==> final(self)@.nrows == old(self)@.nrows + 2 * (ts@.len() - 1),
            ts@.len() <= 1 ==> final(self)@.nrows == old(self)@.nrows,
    {
        let ghost want = ts@.map_values(|t: T| cubic_point(xs, ys, t));
        let mut points: Vec<(T, T)> = Vec::with_capacity(ts.len());
        let mut i: usize = 0;
        while i < ts.len()
            invariant
                i <= ts@.len(),
                want == ts@.map_values(|t: T| cubic_point(xs, ys, t)),
                points@ == want.take(i as int),
            decreases ts@.len() - i,
        {
            let t: T = ts[i];
            points.push((cubic(xs.0, xs.1, xs.2, xs.3, t), cubic(ys.0, ys.1, ys.2, ys.3, t)));
            i += 1;
        }
        proof {
            assert(points@ =~= want);
        }
        self.add_parametric(&points, T::zero());
    }
}

} // verus!
