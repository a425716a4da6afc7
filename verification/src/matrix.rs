//! The matrix type, its constructors and its accessors.

use vstd::prelude::*;
use crate::grid::{flat, lemma_flat_div_mod, lemma_flat_in_bounds, Grid};
use crate::scalar::Scalar;

verus! {

/// What a constructor says of a row count of zero.
pub const ROW_DIM_ERROR: &'static str = "Row dim should be positive!";

/// What a constructor says of a column count of zero.
pub const COL_DIM_ERROR: &'static str = "Col dim should be positive!";

/// What `new` says of a buffer whose length is not `rows * cols`.
pub const LENGTH_ERROR: &'static str = "Input vector does not match dimensions!";

/// What `identity` says of a dimension of zero.
pub const IDENTITY_DIM_ERROR: &'static str = "Dimension should be positive!";

/// A dense matrix stored as one row-major buffer.
#[derive(Debug, PartialEq)]
pub struct Matrix<T> {
    rows: usize,
    cols: usize,
    data: Vec<T>,
}

impl<T> View for Matrix<T> {
    type V = Grid<T>;

    closed spec fn view(&self) -> Grid<T> {
        Grid { rows: self.rows as nat, cols: self.cols as nat, cells: self.data@ }
    }
}

/// Cell `(r, c)` comes before cell `(i, j)` in row-major order.
spec fn comes_before(r: int, c: int, i: int, j: int) -> bool {
    r < i || (r == i && c < j)
}

/// A buffer of `n` copies of `v`.
pub(crate) fn repeat<T: Copy>(v: T, n: usize) -> (buf: Vec<T>)
    ensures
        buf@ == Seq::new(n as nat, |k: int| v),
{
    let mut buf: Vec<T> = Vec::with_capacity(n);
    let mut i: usize = 0;
    while i < n
        invariant
            i <= n,
            buf@ == Seq::new(i as nat, |k: int| v),
        decreases n - i,
    {
        buf.push(v);
        i += 1;
    }
    buf
}

impl<T> Matrix<T> {
    /// The invariant of every matrix that a constructor returned: both
    /// dimensions are positive and the buffer holds `rows * cols` cells.
    pub open spec fn wf(&self) -> bool {
        self@.wf()
    }

    /// Builds a matrix from its dimensions and its cells in row-major order.
    pub fn new(rows: usize, cols: usize, data: Vec<T>) -> (r: Result<Self, &'static str>)
        ensures
            rows == 0 ==> r is Err && r->Err_0 == ROW_DIM_ERROR,
            rows != 0 && cols == 0 ==> r is Err && r->Err_0 == COL_DIM_ERROR,
            rows != 0 && cols != 0 && rows * cols != data@.len()
                ==> r is Err && r->Err_0 == LENGTH_ERROR,
            rows != 0 && cols != 0 && rows * cols == data@.len()
                ==> r is Ok && r->Ok_0.wf()
                    && r->Ok_0@ == (Grid { rows: rows as nat, cols: cols as nat, cells: data@ }),
    {
        if rows == 0 {
            return Err(ROW_DIM_ERROR);
        }
        if cols == 0 {
            return Err(COL_DIM_ERROR);
        }
        let len: usize = data.len();
        match rows.checked_mul(cols) {
            Some(n) => {
                if n != len {
                    return Err(LENGTH_ERROR);
                }
            },
            None => {
                return Err(LENGTH_ERROR);
            },
        }
        Ok(Matrix { rows, cols, data })
    }

    /// Overwrites the cell at position `k` of the buffer.
    pub(crate) fn put(&mut self, k: usize, v: T)
        requires
            k < old(self)@.cells.len(),
        ensures
            final(self)@ == (Grid {
                rows: old(self)@.rows,
                cols: old(self)@.cols,
                cells: old(self)@.cells.update(k as int, v),
            }),
    {
        self.data.set(k, v);
    }

    /// The number of rows.
    pub fn rows(&self) -> (n: usize)
        ensures
            n == self@.rows,
    {
        self.rows
    }

    /// The number of columns.
    pub fn cols(&self) -> (n: usize)
        ensures
            n == self@.cols,
    {
        self.cols
    }

    /// Whether `other` has as many rows and as many columns as `self`: what
    /// the cellwise operations ask of their operands.
    pub fn same_shape(&self, other: &Matrix<T>) -> (b: bool)
        ensures
            b == self@.same_shape(other@),
    {
        self.rows == other.rows && self.cols == other.cols
    }

    /// The cells in row-major order.
    pub fn as_slice(&self) -> (s: &[T])
        ensures
            s@ == self@.cells,
    {
        self.data.as_slice()
    }

    /// The cells in row-major order, for writing. The shape stays; what the
    /// caller leaves in the slice is what the matrix holds afterwards.
    pub fn as_mut_slice(&mut self) -> (s: &mut [T])
        ensures
            s@ == old(self)@.cells,
            final(self)@ == (Grid {
                rows: old(self)@.rows,
                cols: old(self)@.cols,
                cells: final(s)@,
            }),
    {
        self.data.as_mut_slice()
    }
}

impl<T: Copy> Clone for Matrix<T> {
    /// A matrix of the same shape with the same cells, in a buffer of its
    /// own.
    fn clone(&self) -> (out: Self)
        ensures
            out@ == self@,
    {
        let n: usize = self.data.len();
        let mut data: Vec<T> = Vec::with_capacity(n);
        let mut i: usize = 0;
        while i < n
            invariant
                n == self.data@.len(),
                i <= n,
                data@ == self.data@.take(i as int),
            decreases n - i,
        {
            data.push(self.data[i]);
            i += 1;
        }
        assert(data@ =~= self.data@);
        Matrix { rows: self.rows, cols: self.cols, data }
    }
}

impl<T: Copy> Matrix<T> {
    /// Builds a matrix that holds `fill_value` in every cell.
    pub fn full(rows: usize, cols: usize, fill_value: T) -> (r: Result<Self, &'static str>)
        requires
            rows * cols <= usize::MAX,
        ensures
            rows == 0 ==> r is Err && r->Err_0 == ROW_DIM_ERROR,
            rows != 0 && cols == 0 ==> r is Err && r->Err_0 == COL_DIM_ERROR,
            rows != 0 && cols != 0
                ==> r is Ok && r->Ok_0.wf()
                    && r->Ok_0@ == Grid::filled(rows as nat, cols as nat, fill_value),
    {
        if rows == 0 {
            return Err(ROW_DIM_ERROR);
        }
        if cols == 0 {
            return Err(COL_DIM_ERROR);
        }
        Ok(Matrix { rows, cols, data: repeat(fill_value, rows * cols) })
    }

    /// The transpose: a new matrix whose cell `(c, r)` is cell `(r, c)` of
    /// `self`.
    pub fn t(&self) -> (out: Matrix<T>)
        requires
            self.wf(),
        ensures
            out.wf(),
            out@ == self@.transpose(),
    {
        let rows: usize = self.rows;
        let cols: usize = self.cols;
        let slice = self.data.as_slice();
        let len: usize = slice.len();
        proof {
            lemma_flat_in_bounds(rows as nat, cols as nat, 0, 0);
        }
        let mut result: Vec<T> = repeat(slice[0], len);

        let mut i: usize = 0;
        while i < rows
            invariant
                self.wf(),
                rows == self@.rows,
                cols == self@.cols,
                slice@ == self@.cells,
                len == rows * cols,
                result@.len() == len,
                i <= rows,
                forall|r: int, c: int|
                    0 <= r && 0 <= c < cols && comes_before(r, c, i as int, 0)
                        ==> #[trigger] result@[flat(rows as nat, c, r)] == self@.at(r, c),
            decreases rows - i,
        {
            let mut j: usize = 0;
            while j < cols
                invariant
                    self.wf(),
                    rows == self@.rows,
                    cols == self@.cols,
                    slice@ == self@.cells,
                    len == rows * cols,
                    result@.len() == len,
                    i < rows,
                    j <= cols,
                    forall|r: int, c: int|
                        0 <= r && 0 <= c < cols && comes_before(r, c, i as int, j as int)
                            ==> #[trigger] result@[flat(rows as nat, c, r)] == self@.at(r, c),
                decreases cols - j,
            {
                proof {
                    lemma_flat_in_bounds(rows as nat, cols as nat, i as int, j as int);
                    lemma_flat_in_bounds(cols as nat, rows as nat, j as int, i as int);
                    assert(cols * rows == rows * cols) by (nonlinear_arith);
                }
                result.set(j * rows + i, slice[i * cols + j]);
                assert forall|r: int, c: int|
                    0 <= r && 0 <= c < cols && comes_before(r, c, i as int, j + 1)
                    implies #[trigger] result@[flat(rows as nat, c, r)] == self@.at(r, c) by {
                    lemma_flat_in_bounds(cols as nat, rows as nat, c, r);
                    lemma_flat_div_mod(rows as nat, c, r);
                    lemma_flat_div_mod(rows as nat, j as int, i as int);
                }
                j += 1;
            }
            i += 1;
        }

        let out = Matrix { rows: cols, cols: rows, data: result };
        proof {
            let want = self@.transpose();
            assert forall|r: int, c: int| 0 <= r < cols && 0 <= c < rows implies out@.at(r, c)
                == want.at(r, c) by {
                Grid::lemma_from_fn_at(
                    cols as nat,
                    rows as nat,
                    |r: int, c: int| self@.at(c, r),
                    r,
                    c,
                );
            }
            out@.lemma_equal_by_cells(want);
        }
        out
    }

    /// A new matrix of the same shape whose every cell is `func` of the
    /// cell of `self` in its place.
    pub fn apply(&self, func: impl Fn(T) -> T) -> (out: Matrix<T>)
        requires
            self.wf(),
            forall|k: int| 0 <= k < self@.cells.len() ==> call_requires(func, (self@.cells[k],)),
        ensures
            out.wf(),
            out@.same_shape(self@),
            forall|k: int|
                0 <= k < self@.cells.len() ==> call_ensures(
                    func,
                    (self@.cells[k],),
                    #[trigger] out@.cells[k],
                ),
    {
        let n: usize = self.data.len();
        let mut result: Vec<T> = Vec::with_capacity(n);
        let mut i: usize = 0;
        while i < n
            invariant
                n == self.data@.len(),
                i <= n,
                result@.len() == i,
                forall|k: int| 0 <= k < n ==> call_requires(func, (self.data@[k],)),
                forall|k: int|
                    0 <= k < i ==> call_ensures(func, (self.data@[k],), #[trigger] result@[k]),
            decreases n - i,
        {
            result.push(func(self.data[i]));
            i += 1;
        }
        Matrix { rows: self.rows, cols: self.cols, data: result }
    }

    /// The same transformation as `apply`, written into the buffer of the
    /// matrix itself, which is handed back.
    pub fn apply_inplace(self, func: impl Fn(T) -> T) -> (out: Matrix<T>)
        requires
            self.wf(),
            forall|k: int| 0 <= k < self@.cells.len() ==> call_requires(func, (self@.cells[k],)),
        ensures
            out.wf(),
            out@.same_shape(self@),
            forall|k: int|
                0 <= k < self@.cells.len() ==> call_ensures(
                    func,
                    (self@.cells[k],),
                    #[trigger] out@.cells[k],
                ),
    {
        let ghost before = self@.cells;
        let mut out = self;
        let n: usize = out.data.len();
        let mut i: usize = 0;
        while i < n
            invariant
                n == before.len(),
                out.data@.len() == n,
                out.rows == self.rows,
                out.cols == self.cols,
                i <= n,
                forall|k: int| 0 <= k < n ==> call_requires(func, (before[k],)),
                forall|k: int| i <= k < n ==> out.data@[k] == before[k],
                forall|k: int|
                    0 <= k < i ==> call_ensures(func, (before[k],), #[trigger] out.data@[k]),
            decreases n - i,
        {
            assert(out.data@[i as int] == before[i as int]);
            let updated: T = func(out.data[i]);
            out.data.set(i, updated);
            i += 1;
        }
        out
    }

    /// Builds a matrix whose cells are successive results of `sample`, one
    /// call per cell in row-major order.
    pub fn rand_init(rows: usize, cols: usize, sample: impl Fn() -> T) -> (out: Matrix<T>)
        requires
            rows > 0,
            cols > 0,
            rows * cols <= usize::MAX,
            call_requires(sample, ()),
        ensures
            out.wf(),
            out@.rows == rows,
            out@.cols == cols,
            forall|k: int|
                0 <= k < out@.cells.len() ==> call_ensures(sample, (), #[trigger] out@.cells[k]),
    {
        let n: usize = rows * cols;
        let mut data: Vec<T> = Vec::with_capacity(n);
        let mut i: usize = 0;
        while i < n
            invariant
                i <= n,
                data@.len() == i,
                call_requires(sample, ()),
                forall|k: int| 0 <= k < i ==> call_ensures(sample, (), #[trigger] data@[k]),
            decreases n - i,
        {
            data.push(sample());
            i += 1;
        }
        Matrix { rows, cols, data }
    }
}

impl<T: Scalar> Matrix<T> {
    /// Builds a matrix of zeroes.
    pub fn zeroes(rows: usize, cols: usize) -> (r: Result<Self, &'static str>)
        requires
            rows * cols <= usize::MAX,
        ensures
            rows == 0 ==> r is Err && r->Err_0 == ROW_DIM_ERROR,
            rows != 0 && cols == 0 ==> r is Err && r->Err_0 == COL_DIM_ERROR,
            rows != 0 && cols != 0
                ==> r is Ok && r->Ok_0.wf()
                    && r->Ok_0@.ints() == Grid::filled(rows as nat, cols as nat, 0int),
    {
        let r = Self::full(rows, cols, T::zero_value());
        proof {
            if rows != 0 && cols != 0 {
                let want = Grid::filled(rows as nat, cols as nat, 0int);
                assert(r->Ok_0@.ints().cells =~= want.cells);
            }
        }
        r
    }

    /// Builds a matrix of ones.
    pub fn ones(rows: usize, cols: usize) -> (r: Result<Self, &'static str>)
        requires
            rows * cols <= usize::MAX,
        ensures
            rows == 0 ==> r is Err && r->Err_0 == ROW_DIM_ERROR,
            rows != 0 && cols == 0 ==> r is Err && r->Err_0 == COL_DIM_ERROR,
            rows != 0 && cols != 0
                ==> r is Ok && r->Ok_0.wf()
                    && r->Ok_0@.ints() == Grid::filled(rows as nat, cols as nat, 1int),
    {
        let r = Self::full(rows, cols, T::one_value());
        proof {
            if rows != 0 && cols != 0 {
                let want = Grid::filled(rows as nat, cols as nat, 1int);
                assert(r->Ok_0@.ints().cells =~= want.cells);
            }
        }
        r
    }

    /// Builds the `n` by `n` identity matrix.
    pub fn identity(n: usize) -> (r: Result<Self, &'static str>)
        requires
            n * n <= usize::MAX,
        ensures
            n == 0 ==> r is Err && r->Err_0 == IDENTITY_DIM_ERROR,
            n != 0 ==> r is Ok && r->Ok_0.wf() && r->Ok_0@.ints() == Grid::identity(n as nat),
    {
        if n == 0 {
            return Err(IDENTITY_DIM_ERROR);
        }
        let mut mat = match Self::zeroes(n, n) {
            Ok(m) => m,
            Err(e) => {
                return Err(e);
            },
        };
        assert forall|r: int, c: int| 0 <= r < n && 0 <= c < n implies (
        #[trigger] mat.data@[flat(n as nat, r, c)]).val() == 0 by {
            lemma_flat_in_bounds(n as nat, n as nat, r, c);
            let k = flat(n as nat, r, c);
            assert(mat@.ints().cells[k] == mat.data@[k].val());
        }
        let mut i: usize = 0;
        while i < n
            invariant
                n > 0,
                n * n <= usize::MAX,
                mat.rows == n,
                mat.cols == n,
                mat.data@.len() == n * n,
                i <= n,
                forall|r: int, c: int|
                    0 <= r < n && 0 <= c < n ==> (#[trigger] mat.data@[flat(n as nat, r, c)]).val()
                        == if r == c && r < i {
                        1int
                    } else {
                        0int
                    },
            decreases n - i,
        {
            proof {
                lemma_flat_in_bounds(n as nat, n as nat, i as int, i as int);
            }
            mat.data.set(i * n + i, T::one_value());
            assert forall|r: int, c: int| 0 <= r < n && 0 <= c < n implies (
            #[trigger] mat.data@[flat(n as nat, r, c)]).val() == if r == c && r < i + 1 {
                1int
            } else {
                0int
            } by {
                lemma_flat_in_bounds(n as nat, n as nat, r, c);
                lemma_flat_div_mod(n as nat, r, c);
                lemma_flat_div_mod(n as nat, i as int, i as int);
            }
            i += 1;
        }
        proof {
            let want = Grid::<int>::identity(n as nat);
            assert forall|r: int, c: int| 0 <= r < n && 0 <= c < n implies mat@.ints().at(r, c)
                == want.at(r, c) by {
                lemma_flat_in_bounds(n as nat, n as nat, r, c);
                Grid::lemma_from_fn_at(
                    n as nat,
                    n as nat,
                    |r: int, c: int|
                        if r == c {
                            1int
                        } else {
                            0int
                        },
                    r,
                    c,
                );
            }
            mat@.ints().lemma_equal_by_cells(want);
        }
        Ok(mat)
    }
}

} // verus!
