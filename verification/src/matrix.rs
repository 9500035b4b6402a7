//! A dense, row-major, shape-checked 2D container of binary64 values.
//!
//! Every matrix is a rectangle of at least one row and one column; every
//! operation returns a new matrix and none mutates its receiver.  Arithmetic
//! cells are pinned, cell by cell, to the named scalar operations of
//! [`crate::scalar`], so a contract states exactly which additions and
//! products produced each entry and in which order they were folded.

use vstd::prelude::*;
use crate::error::Error;
use crate::scalar::{
    prod_bits, sum_bits, diff_bits, val_eq, scalar_add, scalar_eq, scalar_from_int, scalar_mul,
    scalar_sub, RandomSource, ThreadSource, ZERO_BITS, UNIT_SCALE_BITS,
};

verus! {

/// The sequence of row views of a vector of rows.
pub open spec fn rows_view(data: Vec<Vec<u64>>) -> Seq<Seq<u64>> {
    Seq::new(data@.len(), |i: int| data@[i]@)
}

/// A rectangle of `rows` rows and `cols` columns, both at least one.
pub open spec fn grid_wf(g: Seq<Seq<u64>>, rows: int, cols: int) -> bool {
    &&& g.len() == rows
    &&& 1 <= rows
    &&& 1 <= cols
    &&& forall|i: int| 0 <= i < rows ==> (#[trigger] g[i]).len() == cols
}

/// The shape a `from` argument must have: at least one row, at least one
/// column, and all rows of equal length.
pub open spec fn from_ok(g: Seq<Seq<u64>>) -> bool {
    &&& g.len() >= 1
    &&& g[0].len() >= 1
    &&& forall|i: int| 0 <= i < g.len() ==> (#[trigger] g[i]).len() == g[0].len()
}

/// The transpose of a rectangular grid.
pub open spec fn transpose_of(g: Seq<Seq<u64>>) -> Seq<Seq<u64>> {
    Seq::new(g[0].len(), |j: int| Seq::new(g.len(), |i: int| g[i][j]))
}

/// A dense 2D array of binary64 values, row-major.
#[derive(Clone, Debug)]
pub struct Matrix {
    pub rows: usize,
    pub cols: usize,
    pub data: Vec<Vec<u64>>,
}

impl View for Matrix {
    type V = Seq<Seq<u64>>;

    open spec fn view(&self) -> Seq<Seq<u64>> {
        rows_view(self.data)
    }
}

impl Matrix {
    /// The matrix invariant: the stated shape is the real shape and is a
    /// non-empty rectangle.
    pub open spec fn wf(&self) -> bool {
        grid_wf(self@, self.rows as int, self.cols as int)
    }

    /// An all-zero matrix of the given shape.
    pub fn zeros(rows: usize, cols: usize) -> (r: Matrix)
        ensures
            r.rows == rows,
            r.cols == cols,
            r@.len() == rows as int,
            forall|i: int| 0 <= i < rows as int ==> (#[trigger] r@[i]).len() == cols as int,
            forall|i: int, j: int|
                0 <= i < rows as int && 0 <= j < cols as int ==> r@[i][j] == ZERO_BITS,
            rows >= 1 && cols >= 1 ==> r.wf(),
    {
        let mut data: Vec<Vec<u64>> = Vec::new();
        let mut i: usize = 0;
        while i < rows
            invariant
                i <= rows,
                data@.len() == i as int,
                forall|k: int| 0 <= k < i as int ==> (#[trigger] data@[k]@).len() == cols as int,
                forall|k: int, j: int|
                    0 <= k < i as int && 0 <= j < cols as int ==> data@[k]@[j] == ZERO_BITS,
            decreases rows - i,
        {
            let mut row: Vec<u64> = Vec::new();
            let mut j: usize = 0;
            while j < cols
                invariant
                    j <= cols,
                    row@.len() == j as int,
                    forall|k: int| 0 <= k < j as int ==> row@[k] == ZERO_BITS,
                decreases cols - j,
            {
                row.push(ZERO_BITS);
                j += 1;
            }
            data.push(row);
            i += 1;
        }
        Matrix { rows, cols, data }
    }

    /// A matrix built from a non-empty sequence of equally long, non-empty
    /// rows; refused with `ShapeError` otherwise.
    pub fn from(data: Vec<Vec<u64>>) -> (r: Result<Matrix, Error>)
        ensures
            r.is_ok() <==> from_ok(rows_view(data)),
            r matches Ok(m) ==> {
                &&& m.wf()
                &&& m.rows == data@.len()
                &&& m.cols == data@[0]@.len()
                &&& m@ == rows_view(data)
            },
            r matches Err(e) ==> e == Error::ShapeError,
    {
        if data.len() == 0 {
            return Err(Error::ShapeError);
        }
        let cols = data[0].len();
        if cols == 0 {
            return Err(Error::ShapeError);
        }
        let mut i: usize = 1;
        while i < data.len()
            invariant
                1 <= i <= data@.len(),
                cols == data@[0]@.len(),
                forall|k: int| 0 <= k < i as int ==> (#[trigger] data@[k]@).len() == cols as int,
            decreases data@.len() - i,
        {
            if data[i].len() != cols {
                proof {
                    assert(rows_view(data)[i as int] == data@[i as int]@);
                }
                return Err(Error::ShapeError);
            }
            i += 1;
        }
        let rows = data.len();
        Ok(Matrix { rows, cols, data })
    }

    /// A fresh matrix with the same shape and the same cells.
    pub fn duplicate(&self) -> (r: Matrix)
        requires
            self.wf(),
        ensures
            r.wf(),
            r.rows == self.rows,
            r.cols == self.cols,
            r@ == self@,
    {
        let mut data: Vec<Vec<u64>> = Vec::new();
        let mut i: usize = 0;
        while i < self.rows
            invariant
                self.wf(),
                i <= self.rows,
                data@.len() == i as int,
                forall|k: int| 0 <= k < i as int ==> #[trigger] data@[k]@ == self@[k],
            decreases self.rows - i,
        {
            let mut row: Vec<u64> = Vec::new();
            let mut j: usize = 0;
            while j < self.cols
                invariant
                    self.wf(),
                    i < self.rows,
                    j <= self.cols,
                    row@.len() == j as int,
                    forall|k: int| 0 <= k < j as int ==> row@[k] == self@[i as int][k],
                decreases self.cols - j,
            {
                proof {
                    assert(self@[i as int].len() == self.cols as int);
                }
                row.push(self.data[i][j]);
                j += 1;
            }
            proof {
                assert(row@ =~= self@[i as int]);
            }
            data.push(row);
            i += 1;
        }
        let r = Matrix { rows: self.rows, cols: self.cols, data };
        proof {
            assert(r@ =~= self@);
        }
        r
    }

    /// The transpose: cell `(j, i)` of the result is cell `(i, j)` of the
    /// receiver.
    pub fn transpose(&self) -> (r: Matrix)
        requires
            self.wf(),
        ensures
            r.wf(),
            r.rows == self.cols,
            r.cols == self.rows,
            r@ == transpose_of(self@),
            forall|i: int, j: int|
                0 <= i < self.rows as int && 0 <= j < self.cols as int ==> r@[j][i] == self@[i][j],
    {
        let mut data: Vec<Vec<u64>> = Vec::new();
        let mut j: usize = 0;
        while j < self.cols
            invariant
                self.wf(),
                j <= self.cols,
                data@.len() == j as int,
                forall|k: int| 0 <= k < j as int ==> #[trigger] data@[k]@ == transpose_of(self@)[k],
            decreases self.cols - j,
        {
            let mut row: Vec<u64> = Vec::new();
            let mut i: usize = 0;
            while i < self.rows
                invariant
                    self.wf(),
                    j < self.cols,
                    i <= self.rows,
                    row@.len() == i as int,
                    forall|k: int| 0 <= k < i as int ==> row@[k] == self@[k][j as int],
                decreases self.rows - i,
            {
                proof {
                    assert(self@[i as int].len() == self.cols as int);
                }
                row.push(self.data[i][j]);
                i += 1;
            }
            proof {
                assert(row@ =~= transpose_of(self@)[j as int]);
            }
            data.push(row);
            j += 1;
        }
        let r = Matrix { rows: self.cols, cols: self.rows, data };
        proof {
            assert(r@ =~= transpose_of(self@));
        }
        r
    }
}

/// Which cell of `b` takes part in `a.add(b)` at position `(i, j)`, for a
/// receiver of `cols` columns: a single row of matching width is read at its
/// row 0, a single column at its column 0, and a matrix of equal shape cell
/// for cell.
pub open spec fn add_pick(b: Seq<Seq<u64>>, cols: int, i: int, j: int) -> u64 {
    if b.len() == 1 && b[0].len() == cols {
        b[0][j]
    } else if b[0].len() == 1 {
        b[i][0]
    } else {
        b[i][j]
    }
}

/// The shapes `add` accepts for a receiver of `sr` rows and `sc` columns:
/// the same shape, one row of matching width, or one column of matching
/// height.
pub open spec fn add_compat(sr: int, sc: int, br: int, bc: int) -> bool {
    ||| (br == sr && bc == sc)
    ||| (br == 1 && bc == sc)
    ||| (br == sr && bc == 1)
}

/// The broadcasting elementwise sum of `a` and `b`.
pub open spec fn add_grid(a: Seq<Seq<u64>>, b: Seq<Seq<u64>>) -> Seq<Seq<u64>> {
    Seq::new(
        a.len(),
        |i: int| Seq::new(a[0].len(), |j: int| sum_bits(a[i][j], add_pick(b, a[0].len() as int, i, j))),
    )
}

/// The elementwise difference of two grids of equal shape.
pub open spec fn sub_grid(a: Seq<Seq<u64>>, b: Seq<Seq<u64>>) -> Seq<Seq<u64>> {
    Seq::new(a.len(), |i: int| Seq::new(a[0].len(), |j: int| diff_bits(a[i][j], b[i][j])))
}

/// The elementwise (Hadamard) product of two grids of equal shape.
pub open spec fn had_grid(a: Seq<Seq<u64>>, b: Seq<Seq<u64>>) -> Seq<Seq<u64>> {
    Seq::new(a.len(), |i: int| Seq::new(a[0].len(), |j: int| prod_bits(a[i][j], b[i][j])))
}

/// The left fold that accumulates cell `(i, j)` of a matrix product: zero,
/// then `acc + a[i][k] * b[k][j]` for `k` ascending below `n`.
pub open spec fn dot_cell(a: Seq<Seq<u64>>, b: Seq<Seq<u64>>, i: int, j: int, n: int) -> u64
    decreases n,
{
    if n <= 0 {
        ZERO_BITS
    } else {
        sum_bits(dot_cell(a, b, i, j, n - 1), prod_bits(a[i][n - 1], b[n - 1][j]))
    }
}

/// The matrix product of `a` and `b`, with `b.len()` inner terms per cell.
pub open spec fn mul_grid(a: Seq<Seq<u64>>, b: Seq<Seq<u64>>) -> Seq<Seq<u64>> {
    Seq::new(a.len(), |i: int| Seq::new(b[0].len(), |j: int| dot_cell(a, b, i, j, b.len() as int)))
}

impl Matrix {
    /// The elementwise sum, with row/column broadcasting: `other` may have
    /// the receiver's shape, a single row of the receiver's width, or a
    /// single column of the receiver's height; any other shape is refused
    /// with `DimensionMismatch`.
    pub fn add(&self, other: &Matrix) -> (r: Result<Matrix, Error>)
        requires
            self.wf(),
            other.wf(),
        ensures
            r.is_ok() <==> add_compat(
                self.rows as int,
                self.cols as int,
                other.rows as int,
                other.cols as int,
            ),
            r matches Ok(m) ==> {
                &&& m.wf()
                &&& m.rows == self.rows
                &&& m.cols == self.cols
                &&& m@ == add_grid(self@, other@)
            },
            r matches Err(e) ==> e == Error::DimensionMismatch,
    {
        let same = other.rows == self.rows && other.cols == self.cols;
        let one_row = other.rows == 1 && other.cols == self.cols;
        let one_col = other.rows == self.rows && other.cols == 1;
        if !(same || one_row || one_col) {
            return Err(Error::DimensionMismatch);
        }
        let mut data: Vec<Vec<u64>> = Vec::new();
        let mut i: usize = 0;
        while i < self.rows
            invariant
                self.wf(),
                other.wf(),
                add_compat(self.rows as int, self.cols as int, other.rows as int, other.cols as int),
                i <= self.rows,
                data@.len() == i as int,
                forall|k: int| 0 <= k < i as int ==> #[trigger] data@[k]@ == add_grid(self@, other@)[k],
            decreases self.rows - i,
        {
            let mut row: Vec<u64> = Vec::new();
            let mut j: usize = 0;
            while j < self.cols
                invariant
                    self.wf(),
                    other.wf(),
                    add_compat(
                        self.rows as int,
                        self.cols as int,
                        other.rows as int,
                        other.cols as int,
                    ),
                    i < self.rows,
                    j <= self.cols,
                    row@.len() == j as int,
                    forall|k: int| 0 <= k < j as int ==>
                        row@[k] == sum_bits(
                            self@[i as int][k],
                            add_pick(other@, self.cols as int, i as int, k),
                        ),
                decreases self.cols - j,
            {
                proof {
                    assert(self@[i as int].len() == self.cols as int);
                    assert(other@[0].len() == other.cols as int);
                    if !(other.rows == 1 && other.cols == self.cols) {
                        assert(other.rows == self.rows);
                        assert(other@[i as int].len() == other.cols as int);
                    }
                }
                let b = if other.rows == 1 && other.cols == self.cols {
                    other.data[0][j]
                } else if other.cols == 1 {
                    other.data[i][0]
                } else {
                    other.data[i][j]
                };
                row.push(scalar_add(self.data[i][j], b));
                j += 1;
            }
            proof {
                assert(row@ =~= add_grid(self@, other@)[i as int]);
            }
            data.push(row);
            i += 1;
        }
        let m = Matrix { rows: self.rows, cols: self.cols, data };
        proof {
            assert(m@ =~= add_grid(self@, other@));
        }
        Ok(m)
    }

    /// The elementwise difference; unlike `add`, the shapes must match
    /// exactly (the asymmetry is part of the design).
    pub fn subtract(&self, other: &Matrix) -> (r: Result<Matrix, Error>)
        requires
            self.wf(),
            other.wf(),
        ensures
            r.is_ok() <==> self.rows == other.rows && self.cols == other.cols,
            r matches Ok(m) ==> {
                &&& m.wf()
                &&& m.rows == self.rows
                &&& m.cols == self.cols
                &&& m@ == sub_grid(self@, other@)
            },
            r matches Err(e) ==> e == Error::DimensionMismatch,
    {
        if self.rows != other.rows || self.cols != other.cols {
            return Err(Error::DimensionMismatch);
        }
        let mut data: Vec<Vec<u64>> = Vec::new();
        let mut i: usize = 0;
        while i < self.rows
            invariant
                self.wf(),
                other.wf(),
                self.rows == other.rows,
                self.cols == other.cols,
                i <= self.rows,
                data@.len() == i as int,
                forall|k: int| 0 <= k < i as int ==> #[trigger] data@[k]@ == sub_grid(self@, other@)[k],
            decreases self.rows - i,
        {
            let mut row: Vec<u64> = Vec::new();
            let mut j: usize = 0;
            while j < self.cols
                invariant
                    self.wf(),
                    other.wf(),
                    self.rows == other.rows,
                    self.cols == other.cols,
                    i < self.rows,
                    j <= self.cols,
                    row@.len() == j as int,
                    forall|k: int| 0 <= k < j as int ==>
                        row@[k] == diff_bits(self@[i as int][k], other@[i as int][k]),
                decreases self.cols - j,
            {
                proof {
                    assert(self@[i as int].len() == self.cols as int);
                    assert(other@[i as int].len() == other.cols as int);
                }
                row.push(scalar_sub(self.data[i][j], other.data[i][j]));
                j += 1;
            }
            proof {
                assert(row@ =~= sub_grid(self@, other@)[i as int]);
            }
            data.push(row);
            i += 1;
        }
        let m = Matrix { rows: self.rows, cols: self.cols, data };
        proof {
            assert(m@ =~= sub_grid(self@, other@));
        }
        Ok(m)
    }

    /// The elementwise (Hadamard) product; the shapes must match exactly.
    pub fn scalar_multiplication(&self, other: &Matrix) -> (r: Result<Matrix, Error>)
        requires
            self.wf(),
            other.wf(),
        ensures
            r.is_ok() <==> self.rows == other.rows && self.cols == other.cols,
            r matches Ok(m) ==> {
                &&& m.wf()
                &&& m.rows == self.rows
                &&& m.cols == self.cols
                &&& m@ == had_grid(self@, other@)
            },
            r matches Err(e) ==> e == Error::DimensionMismatch,
    {
        if self.rows != other.rows || self.cols != other.cols {
            return Err(Error::DimensionMismatch);
        }
        let mut data: Vec<Vec<u64>> = Vec::new();
        let mut i: usize = 0;
        while i < self.rows
            invariant
                self.wf(),
                other.wf(),
                self.rows == other.rows,
                self.cols == other.cols,
                i <= self.rows,
                data@.len() == i as int,
                forall|k: int| 0 <= k < i as int ==> #[trigger] data@[k]@ == had_grid(self@, other@)[k],
            decreases self.rows - i,
        {
            let mut row: Vec<u64> = Vec::new();
            let mut j: usize = 0;
            while j < self.cols
                invariant
                    self.wf(),
                    other.wf(),
                    self.rows == other.rows,
                    self.cols == other.cols,
                    i < self.rows,
                    j <= self.cols,
                    row@.len() == j as int,
                    forall|k: int| 0 <= k < j as int ==>
                        row@[k] == prod_bits(self@[i as int][k], other@[i as int][k]),
                decreases self.cols - j,
            {
                proof {
                    assert(self@[i as int].len() == self.cols as int);
                    assert(other@[i as int].len() == other.cols as int);
                }
                row.push(scalar_mul(self.data[i][j], other.data[i][j]));
                j += 1;
            }
            proof {
                assert(row@ =~= had_grid(self@, other@)[i as int]);
            }
            data.push(row);
            i += 1;
        }
        let m = Matrix { rows: self.rows, cols: self.cols, data };
        proof {
            assert(m@ =~= had_grid(self@, other@));
        }
        Ok(m)
    }

    /// The elementwise square: each cell multiplied by itself.
    pub fn square(&self) -> (r: Matrix)
        requires
            self.wf(),
        ensures
            r.wf(),
            r.rows == self.rows,
            r.cols == self.cols,
            r@ == had_grid(self@, self@),
    {
        match self.scalar_multiplication(self) {
            Ok(m) => m,
            Err(_) => vstd::pervasive::unreached(),
        }
    }

    /// The matrix product.  Cell `(i, j)` is the fold of
    /// `a[i][k] * b[k][j]` over ascending `k`, starting from zero; refused
    /// with `DimensionMismatch` unless the receiver's width equals `other`'s
    /// height.
    pub fn dot_product(&self, other: &Matrix) -> (r: Result<Matrix, Error>)
        requires
            self.wf(),
            other.wf(),
        ensures
            r.is_ok() <==> self.cols == other.rows,
            r matches Ok(m) ==> {
                &&& m.wf()
                &&& m.rows == self.rows
                &&& m.cols == other.cols
                &&& m@ == mul_grid(self@, other@)
            },
            r matches Err(e) ==> e == Error::DimensionMismatch,
    {
        if self.cols != other.rows {
            return Err(Error::DimensionMismatch);
        }
        let mut data: Vec<Vec<u64>> = Vec::new();
        let mut i: usize = 0;
        while i < self.rows
            invariant
                self.wf(),
                other.wf(),
                self.cols == other.rows,
                i <= self.rows,
                data@.len() == i as int,
                forall|k: int| 0 <= k < i as int ==> #[trigger] data@[k]@ == mul_grid(self@, other@)[k],
            decreases self.rows - i,
        {
            let mut row: Vec<u64> = Vec::new();
            let mut j: usize = 0;
            while j < other.cols
                invariant
                    self.wf(),
                    other.wf(),
                    self.cols == other.rows,
                    i < self.rows,
                    j <= other.cols,
                    row@.len() == j as int,
                    forall|k: int| 0 <= k < j as int ==>
                        row@[k] == dot_cell(self@, other@, i as int, k, other@.len() as int),
                decreases other.cols - j,
            {
                let mut sum: u64 = ZERO_BITS;
                let mut k: usize = 0;
                while k < self.cols
                    invariant
                        self.wf(),
                        other.wf(),
                        self.cols == other.rows,
                        i < self.rows,
                        j < other.cols,
                        k <= self.cols,
                        sum == dot_cell(self@, other@, i as int, j as int, k as int),
                    decreases self.cols - k,
                {
                    proof {
                        assert(self@[i as int].len() == self.cols as int);
                        assert(other@[k as int].len() == other.cols as int);
                    }
                    sum = scalar_add(sum, scalar_mul(self.data[i][k], other.data[k][j]));
                    k += 1;
                }
                row.push(sum);
                j += 1;
            }
            proof {
                assert(row@ =~= mul_grid(self@, other@)[i as int]);
            }
            data.push(row);
            i += 1;
        }
        let m = Matrix { rows: self.rows, cols: other.cols, data };
        proof {
            assert(m@ =~= mul_grid(self@, other@));
        }
        Ok(m)
    }
}

/// The fold of column `j` over the first `n` rows, ascending, from zero.
pub open spec fn col_sum(g: Seq<Seq<u64>>, j: int, n: int) -> u64
    decreases n,
{
    if n <= 0 {
        ZERO_BITS
    } else {
        sum_bits(col_sum(g, j, n - 1), g[n - 1][j])
    }
}

/// The fold of row `i` over its first `n` cells, ascending, from zero.
pub open spec fn row_sum(g: Seq<Seq<u64>>, i: int, n: int) -> u64
    decreases n,
{
    if n <= 0 {
        ZERO_BITS
    } else {
        sum_bits(row_sum(g, i, n - 1), g[i][n - 1])
    }
}

/// The fold of the first `n` cells of one row onto a running total.
pub open spec fn row_fold(start: u64, row: Seq<u64>, n: int) -> u64
    decreases n,
{
    if n <= 0 {
        start
    } else {
        sum_bits(row_fold(start, row, n - 1), row[n - 1])
    }
}

/// The row-major fold of the first `n` rows of a grid, from zero.
pub open spec fn grid_fold(g: Seq<Seq<u64>>, n: int) -> u64
    decreases n,
{
    if n <= 0 {
        ZERO_BITS
    } else {
        row_fold(grid_fold(g, n - 1), g[n - 1], g[n - 1].len() as int)
    }
}

/// A grid of `n` copies of one row.
pub open spec fn tile_rows(row: Seq<u64>, n: nat) -> Seq<Seq<u64>> {
    Seq::new(n, |i: int| row)
}

impl Matrix {
    /// The reduction along an axis: axis 0 folds each column over the rows
    /// and yields one row of column totals; axis 1 folds each row over its
    /// cells and yields one row of row totals; any other axis is refused
    /// with `InvalidAxis`.
    pub fn sum_by_axis(&self, axis: usize) -> (r: Result<Matrix, Error>)
        requires
            self.wf(),
        ensures
            r.is_ok() <==> axis <= 1,
            axis == 0 ==> (r matches Ok(m) && {
                &&& m.wf()
                &&& m.rows == 1
                &&& m.cols == self.cols
                &&& forall|j: int|
                    0 <= j < self.cols as int ==> m@[0][j] == col_sum(self@, j, self.rows as int)
            }),
            axis == 1 ==> (r matches Ok(m) && {
                &&& m.wf()
                &&& m.rows == 1
                &&& m.cols == self.rows
                &&& forall|i: int|
                    0 <= i < self.rows as int ==> m@[0][i] == row_sum(self@, i, self.cols as int)
            }),
            r matches Err(e) ==> e == Error::InvalidAxis,
    {
        if axis >= 2 {
            return Err(Error::InvalidAxis);
        }
        let mut row: Vec<u64> = Vec::new();
        if axis == 0 {
            let mut j: usize = 0;
            while j < self.cols
                invariant
                    self.wf(),
                    j <= self.cols,
                    row@.len() == j as int,
                    forall|k: int| 0 <= k < j as int ==> row@[k] == col_sum(self@, k, self.rows as int),
                decreases self.cols - j,
            {
                let mut acc: u64 = ZERO_BITS;
                let mut i: usize = 0;
                while i < self.rows
                    invariant
                        self.wf(),
                        j < self.cols,
                        i <= self.rows,
                        acc == col_sum(self@, j as int, i as int),
                    decreases self.rows - i,
                {
                    proof {
                        assert(self@[i as int].len() == self.cols as int);
                    }
                    acc = scalar_add(acc, self.data[i][j]);
                    i += 1;
                }
                row.push(acc);
                j += 1;
            }
        } else {
            let mut i: usize = 0;
            while i < self.rows
                invariant
                    self.wf(),
                    i <= self.rows,
                    row@.len() == i as int,
                    forall|k: int| 0 <= k < i as int ==> row@[k] == row_sum(self@, k, self.cols as int),
                decreases self.rows - i,
            {
                let mut acc: u64 = ZERO_BITS;
                let mut j: usize = 0;
                while j < self.cols
                    invariant
                        self.wf(),
                        i < self.rows,
                        j <= self.cols,
                        acc == row_sum(self@, i as int, j as int),
                    decreases self.cols - j,
                {
                    proof {
                        assert(self@[i as int].len() == self.cols as int);
                    }
                    acc = scalar_add(acc, self.data[i][j]);
                    j += 1;
                }
                row.push(acc);
                i += 1;
            }
        }
        let cols = row.len();
        let mut data: Vec<Vec<u64>> = Vec::new();
        data.push(row);
        Ok(Matrix { rows: 1, cols, data })
    }

    /// The row-major fold of every cell onto one running total, starting
    /// from zero.
    pub fn collect_sum(&self) -> (r: u64)
        requires
            self.wf(),
        ensures
            r == grid_fold(self@, self.rows as int),
    {
        let mut acc: u64 = ZERO_BITS;
        let mut i: usize = 0;
        while i < self.rows
            invariant
                self.wf(),
                i <= self.rows,
                acc == grid_fold(self@, i as int),
            decreases self.rows - i,
        {
            let mut j: usize = 0;
            while j < self.cols
                invariant
                    self.wf(),
                    i < self.rows,
                    j <= self.cols,
                    self@[i as int].len() == self.cols as int,
                    acc == row_fold(grid_fold(self@, i as int), self@[i as int], j as int),
                decreases self.cols - j,
            {
                acc = scalar_add(acc, self.data[i][j]);
                j += 1;
            }
            i += 1;
        }
        acc
    }

    /// How many cells the matrix has.
    pub fn count(&self) -> (r: usize)
        requires
            self.rows * self.cols <= usize::MAX,
        ensures
            r == self.rows * self.cols,
    {
        self.rows * self.cols
    }

    /// A new matrix with `f` applied to every cell.
    pub fn map<F: Fn(u64) -> u64>(&self, f: F) -> (r: Matrix)
        requires
            self.wf(),
            forall|x: u64| call_requires(f, (x,)),
        ensures
            r.wf(),
            r.rows == self.rows,
            r.cols == self.cols,
            forall|i: int, j: int|
                0 <= i < self.rows as int && 0 <= j < self.cols as int ==>
                    call_ensures(f, (self@[i][j],), #[trigger] r@[i][j]),
    {
        let mut data: Vec<Vec<u64>> = Vec::new();
        let mut i: usize = 0;
        while i < self.rows
            invariant
                self.wf(),
                forall|x: u64| call_requires(f, (x,)),
                i <= self.rows,
                data@.len() == i as int,
                forall|k: int| 0 <= k < i as int ==> (#[trigger] data@[k]@).len() == self.cols as int,
                forall|k: int, l: int|
                    0 <= k < i as int && 0 <= l < self.cols as int ==>
                        call_ensures(f, (self@[k][l],), #[trigger] data@[k]@[l]),
            decreases self.rows - i,
        {
            let mut row: Vec<u64> = Vec::new();
            let mut j: usize = 0;
            while j < self.cols
                invariant
                    self.wf(),
                    forall|x: u64| call_requires(f, (x,)),
                    i < self.rows,
                    j <= self.cols,
                    row@.len() == j as int,
                    forall|l: int| 0 <= l < j as int ==>
                        call_ensures(f, (self@[i as int][l],), #[trigger] row@[l]),
                decreases self.cols - j,
            {
                proof {
                    assert(self@[i as int].len() == self.cols as int);
                }
                row.push(f(self.data[i][j]));
                j += 1;
            }
            data.push(row);
            i += 1;
        }
        Matrix { rows: self.rows, cols: self.cols, data }
    }

    /// A matrix of independent draws from the thread-local source, each
    /// distributed as `unit * (to - from) + from` for a fresh 53-bit
    /// uniform unit sample.  Nothing is promised of the drawn values.
    pub fn random(rows: usize, cols: usize, from: u64, to: u64) -> (r: Matrix)
        ensures
            r.rows == rows,
            r.cols == cols,
            r@.len() == rows as int,
            forall|i: int| 0 <= i < rows as int ==> (#[trigger] r@[i]).len() == cols as int,
            rows >= 1 && cols >= 1 ==> r.wf(),
    {
        let mut source = ThreadSource;
        Matrix::random_with(rows, cols, from, to, &mut source)
    }

    /// Like `random`, drawing its raw words from the injected source, so
    /// that a seeded source gives a reproducible matrix.
    pub fn random_with<S: RandomSource>(
        rows: usize,
        cols: usize,
        from: u64,
        to: u64,
        source: &mut S,
    ) -> (r: Matrix)
        ensures
            r.rows == rows,
            r.cols == cols,
            r@.len() == rows as int,
            forall|i: int| 0 <= i < rows as int ==> (#[trigger] r@[i]).len() == cols as int,
            rows >= 1 && cols >= 1 ==> r.wf(),
    {
        let mut data: Vec<Vec<u64>> = Vec::new();
        let mut i: usize = 0;
        while i < rows
            invariant
                i <= rows,
                data@.len() == i as int,
                forall|k: int| 0 <= k < i as int ==> (#[trigger] data@[k]@).len() == cols as int,
            decreases rows - i,
        {
            let mut row: Vec<u64> = Vec::new();
            let mut j: usize = 0;
            while j < cols
                invariant
                    j <= cols,
                    row@.len() == j as int,
                decreases cols - j,
            {
                row.push(random_from_to(from, to, source));
                j += 1;
            }
            data.push(row);
            i += 1;
        }
        Matrix { rows, cols, data }
    }
}

/// A fresh copy of a vector of rows, row for row and cell for cell.
pub fn copy_grid(v: &Vec<Vec<u64>>) -> (r: Vec<Vec<u64>>)
    ensures
        r@.len() == v@.len(),
        rows_view(r) == rows_view(*v),
{
    let mut r: Vec<Vec<u64>> = Vec::new();
    let mut i: usize = 0;
    while i < v.len()
        invariant
            i <= v@.len(),
            r@.len() == i as int,
            forall|k: int| 0 <= k < i as int ==> #[trigger] r@[k]@ == v@[k]@,
        decreases v@.len() - i,
    {
        let mut row: Vec<u64> = Vec::new();
        let mut j: usize = 0;
        while j < v[i].len()
            invariant
                i < v@.len(),
                j <= v@[i as int]@.len(),
                row@.len() == j as int,
                forall|k: int| 0 <= k < j as int ==> row@[k] == v@[i as int]@[k],
            decreases v@[i as int]@.len() - j,
        {
            row.push(v[i][j]);
            j += 1;
        }
        proof {
            assert(row@ =~= v@[i as int]@);
        }
        r.push(row);
        i += 1;
    }
    proof {
        assert(rows_view(r) =~= rows_view(*v));
    }
    r
}

impl Matrix {
    /// Whether the stated shape is the real shape and is a non-empty
    /// rectangle, decided at run time.
    pub fn is_wf(&self) -> (b: bool)
        ensures
            b == self.wf(),
    {
        if self.rows == 0 || self.cols == 0 || self.data.len() != self.rows {
            return false;
        }
        let mut i: usize = 0;
        while i < self.rows
            invariant
                self.rows >= 1,
                self.cols >= 1,
                self.data@.len() == self.rows as int,
                i <= self.rows,
                forall|k: int| 0 <= k < i as int ==> (#[trigger] self@[k]).len() == self.cols as int,
            decreases self.rows - i,
        {
            if self.data[i].len() != self.cols {
                proof {
                    assert(self@[i as int] == self.data@[i as int]@);
                }
                return false;
            }
            i += 1;
        }
        true
    }
}

/// One draw distributed as `unit * (to - from) + from`, where `unit` is a
/// fresh 53-bit uniform sample of the unit interval.
fn random_from_to<S: RandomSource>(from: u64, to: u64, source: &mut S) -> u64 {
    let n = source.next_u64();
    let unit = scalar_mul(scalar_from_int(n >> 11), UNIT_SCALE_BITS);
    scalar_add(scalar_mul(unit, scalar_sub(to, from)), from)
}

/// Law: transposing a rectangular grid twice gives back the grid itself.
pub proof fn lemma_transpose_involution(g: Seq<Seq<u64>>, rows: int, cols: int)
    requires
        grid_wf(g, rows, cols),
    ensures
        transpose_of(transpose_of(g)) == g,
{
    let t = transpose_of(g);
    assert(t.len() == cols);
    assert(t[0].len() == rows);
    let tt = transpose_of(t);
    assert forall|i: int| 0 <= i < rows implies #[trigger] tt[i] =~= g[i] by {
        assert(g[i].len() == cols);
        assert(forall|j: int| 0 <= j < cols ==> #[trigger] tt[i][j] == g[i][j]);
    }
    assert(tt =~= g);
}

/// Law: adding a single row of matching width broadcasts it across the
/// rows: the result equals the elementwise sum with the full grid built by
/// repeating that row.
pub proof fn lemma_add_row_broadcast(a: Seq<Seq<u64>>, r: Seq<Seq<u64>>, rows: int, cols: int)
    requires
        grid_wf(a, rows, cols),
        r.len() == 1,
        r[0].len() == cols,
    ensures
        add_grid(a, r) == add_grid(a, tile_rows(r[0], rows as nat)),
{
    let b = tile_rows(r[0], rows as nat);
    let lhs = add_grid(a, r);
    let rhs = add_grid(a, b);
    assert(a[0].len() == cols);
    assert forall|i: int| 0 <= i < rows implies #[trigger] lhs[i] =~= rhs[i] by {
        assert forall|j: int| 0 <= j < cols implies #[trigger] lhs[i][j] == rhs[i][j] by {
            assert(add_pick(r, cols, i, j) == r[0][j]);
            assert(b[i] == r[0]);
            assert(b[0] == r[0]);
            assert(add_pick(b, cols, i, j) == r[0][j]);
        }
    }
    assert(lhs =~= rhs);
}

/// Matrices are equal when their stated shapes agree, their stored rows
/// agree in number and length, and every pair of cells encodes equal values
/// in the IEEE-754 sense (so the two zeros are equal, and no NaN equals
/// anything).
impl PartialEq for Matrix {
    fn eq(&self, other: &Matrix) -> (r: bool) {
        if self.rows != other.rows || self.cols != other.cols {
            return false;
        }
        if self.data.len() != other.data.len() {
            return false;
        }
        let mut i: usize = 0;
        while i < self.data.len()
            invariant
                i <= self.data@.len(),
                self.data@.len() == other.data@.len(),
                forall|k: int| 0 <= k < i as int ==>
                    (#[trigger] self.data@[k]@).len() == other.data@[k]@.len(),
                forall|k: int, l: int|
                    0 <= k < i as int && 0 <= l < self.data@[k]@.len() ==>
                        val_eq(self.data@[k]@[l], other.data@[k]@[l]),
            decreases self.data@.len() - i,
        {
            if self.data[i].len() != other.data[i].len() {
                return false;
            }
            let mut j: usize = 0;
            while j < self.data[i].len()
                invariant
                    i < self.data@.len(),
                    self.data@.len() == other.data@.len(),
                    j <= self.data@[i as int]@.len(),
                    self.data@[i as int]@.len() == other.data@[i as int]@.len(),
                    forall|k: int| 0 <= k < i as int ==>
                        (#[trigger] self.data@[k]@).len() == other.data@[k]@.len(),
                    forall|k: int, l: int|
                        0 <= k < i as int && 0 <= l < self.data@[k]@.len() ==>
                            val_eq(self.data@[k]@[l], other.data@[k]@[l]),
                    forall|l: int| 0 <= l < j as int ==>
                        val_eq(self.data@[i as int]@[l], other.data@[i as int]@[l]),
                decreases self.data@[i as int]@.len() - j,
            {
                if !scalar_eq(self.data[i][j], other.data[i][j]) {
                    return false;
                }
                j += 1;
            }
            i += 1;
        }
        true
    }
}

impl vstd::std_specs::cmp::PartialEqSpecImpl for Matrix {
    open spec fn obeys_eq_spec() -> bool {
        true
    }

    open spec fn eq_spec(&self, other: &Matrix) -> bool {
        &&& self.rows == other.rows
        &&& self.cols == other.cols
        &&& self.data@.len() == other.data@.len()
        &&& forall|i: int| 0 <= i < self.data@.len() ==>
            (#[trigger] self.data@[i]@).len() == other.data@[i]@.len()
        &&& forall|i: int, j: int|
            0 <= i < self.data@.len() && 0 <= j < self.data@[i]@.len() ==>
                val_eq(self.data@[i]@[j], other.data@[i]@[j])
    }
}

} // verus!
