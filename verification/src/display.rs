//! The text of a matrix, for reading by people.
//!
//! After a header with the dimensions comes one line for each column, the
//! cells of that column from the top row down.

use crate::decimal::{decimal, push_decimal};
use crate::grid::{lemma_offset_in_range, Grid};
use crate::matrix::Matrix;
use crate::scalar::Scalar;
use vstd::prelude::*;

verus! {

/// The text of each element, each followed by a blank.
pub open spec fn cells_text<T: Scalar>(xs: Seq<T>) -> Seq<char>
    decreases xs.len(),
{
    if xs.len() == 0 {
        Seq::empty()
    } else {
        cells_text(xs.drop_last()) + xs.last().text()@ + " "@
    }
}

impl<T: Scalar> Grid<T> {
    /// The line of column `c`: two blanks, the cells, a line break.
    pub open spec fn column_line(self, c: int) -> Seq<char> {
        "  "@ + cells_text(self.col(c)) + "\n"@
    }

    /// The lines of the first `k` columns.
    pub open spec fn column_lines(self, k: nat) -> Seq<char>
        decreases k,
    {
        if k == 0 {
            Seq::empty()
        } else {
            self.column_lines((k - 1) as nat) + self.column_line(k - 1)
        }
    }

    /// What [`Matrix::to_string`] returns.
    pub open spec fn text(self) -> Seq<char> {
        if self.nrows == 0 || self.ncols == 0 {
            "Empty matrix ("@ + decimal(self.nrows) + " by "@ + decimal(self.ncols) + ")"@
        } else {
            "Matrix ("@ + decimal(self.nrows) + " by "@ + decimal(self.ncols) + ") {\n"@
                + self.column_lines(self.ncols) + "}"@
        }
    }
}

impl<T: Scalar> Matrix<T> {
    /// The matrix as text: `Empty matrix (R by C)` where it has no cell,
    /// else `Matrix (R by C) {`, a line for each column and `}`.
    pub fn to_string(&self) -> (s: String)
        ensures
            s@ == self@.text(),
    {
        proof {
            use_type_invariant(self);
        }
        let mut s: String = String::new();
        if self.nrows == 0 || self.ncols == 0 {
            s.append("Empty matrix (");
            push_decimal(&mut s, self.nrows as u64);
            s.append(" by ");
            push_decimal(&mut s, self.ncols as u64);
            s.append(")");
        } else {
            s.append("Matrix (");
            push_decimal(&mut s, self.nrows as u64);
            s.append(" by ");
            push_decimal(&mut s, self.ncols as u64);
            s.append(") {\n");
            let ghost head = s@;
            let mut c: usize = 0;
            while c < self.ncols
                invariant
                    self.wf(),
                    c <= self.ncols,
                    s@ == head + self@.column_lines(c as nat),
                decreases self.ncols - c,
            {
                let ghost before = s@;
                let ghost column = self@.col(c as int);
                s.append("  ");
                let mut r: usize = 0;
                while r < self.nrows
                    invariant
                        self.wf(),
                        c < self.ncols,
                        r <= self.nrows,
                        column == self@.col(c as int),
                        s@ == before + "  "@ + cells_text(column.take(r as int)),
                    decreases self.nrows - r,
                {
                    proof {
                        self.lemma_size_fits();
                        lemma_offset_in_range(self@.nrows, self@.ncols, r as int, c as int);
                    }
                    let d: T = self.data[r * self.ncols + c];
                    let t: String = d.render();
                    s.append(t.as_str());
                    s.append(" ");
                    proof {
                        assert(column.take(r + 1).drop_last() =~= column.take(r as int));
                    }
                    r += 1;
                }
                s.append("\n");
                proof {
                    assert(column.take(self.nrows as int) =~= column);
                }
                c += 1;
            }
            s.append("}");
        }
        s
    }
}

} // verus!
