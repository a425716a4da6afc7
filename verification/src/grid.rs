//! The mathematical model of a matrix: a shape and a row-major sequence of
//! cells. Everything here is specification and proof.

use vstd::prelude::*;
use vstd::arithmetic::div_mod::lemma_fundamental_div_mod_converse;
use crate::scalar::{trunc_div, Scalar};

verus! {

/// A rectangular arrangement of cells, laid out row by row.
pub struct Grid<A> {
    pub rows: nat,
    pub cols: nat,
    pub cells: Seq<A>,
}

/// The position of cell `(r, c)` in a row-major buffer with `cols` columns.
pub open spec fn flat(cols: nat, r: int, c: int) -> int {
    r * cols + c
}

/// A cell inside the shape has its position inside the buffer.
pub proof fn lemma_flat_in_bounds(rows: nat, cols: nat, r: int, c: int)
    requires
        0 <= r < rows,
        0 <= c < cols,
    ensures
        0 <= flat(cols, r, c) < rows * cols,
{
    assert(r * cols + cols <= rows * cols) by (nonlinear_arith)
        requires
            r + 1 <= rows,
            cols >= 0,
    ;
}

/// The row and the column are recovered from a position by division.
pub proof fn lemma_flat_div_mod(cols: nat, r: int, c: int)
    requires
        0 <= c < cols,
    ensures
        flat(cols, r, c) / (cols as int) == r,
        flat(cols, r, c) % (cols as int) == c,
{
    lemma_fundamental_div_mod_converse(flat(cols, r, c), cols as int, r, c);
}

/// Every position of the buffer belongs to exactly one cell of the shape.
pub proof fn lemma_position_to_cell(rows: nat, cols: nat, k: int)
    requires
        0 <= k < rows * cols,
    ensures
        0 <= k / (cols as int) < rows,
        0 <= k % (cols as int) < cols,
        flat(cols, k / (cols as int), k % (cols as int)) == k,
{
    let d = cols as int;
    vstd::arithmetic::div_mod::lemma_fundamental_div_mod(k, d);
    vstd::arithmetic::div_mod::lemma_mod_bound(k, d);
    let q = k / d;
    assert(0 <= q < rows) by (nonlinear_arith)
        requires
            0 <= k < rows * d,
            k == q * d + k % d,
            0 <= k % d < d,
            d > 0,
    ;
}

impl<A> Grid<A> {
    /// Both dimensions are positive and the buffer holds one cell per
    /// position.
    pub open spec fn wf(self) -> bool {
        &&& self.rows > 0
        &&& self.cols > 0
        &&& self.cells.len() == self.rows * self.cols
    }

    /// The cell in row `r`, column `c`.
    pub open spec fn at(self, r: int, c: int) -> A {
        self.cells[flat(self.cols, r, c)]
    }

    /// Both grids have as many rows, and as many columns.
    pub open spec fn same_shape<B>(self, other: Grid<B>) -> bool {
        self.rows == other.rows && self.cols == other.cols
    }

    /// The grid whose cell `(r, c)` is `f(r, c)`.
    pub open spec fn from_fn(rows: nat, cols: nat, f: spec_fn(int, int) -> A) -> Grid<A> {
        Grid {
            rows,
            cols,
            cells: Seq::new(rows * cols, |k: int| f(k / (cols as int), k % (cols as int))),
        }
    }

    /// The grid that holds `v` in every cell.
    pub open spec fn filled(rows: nat, cols: nat, v: A) -> Grid<A> {
        Grid { rows, cols, cells: Seq::new(rows * cols, |k: int| v) }
    }

    /// Rows and columns exchanged: cell `(r, c)` of the result is cell
    /// `(c, r)` of `self`.
    pub open spec fn transpose(self) -> Grid<A> {
        Grid::from_fn(self.cols, self.rows, |r: int, c: int| self.at(c, r))
    }

    /// Cell `(r, c)` of `from_fn(rows, cols, f)` is `f(r, c)`.
    pub proof fn lemma_from_fn_at(rows: nat, cols: nat, f: spec_fn(int, int) -> A, r: int, c: int)
        requires
            0 <= r < rows,
            0 <= c < cols,
        ensures
            Grid::from_fn(rows, cols, f).at(r, c) == f(r, c),
    {
        lemma_flat_in_bounds(rows, cols, r, c);
        lemma_flat_div_mod(cols, r, c);
    }

    /// Two grids of one shape that agree in every cell are equal.
    pub proof fn lemma_equal_by_cells(self, other: Grid<A>)
        requires
            self.wf(),
            other.wf(),
            self.same_shape(other),
            forall|r: int, c: int|
                0 <= r < self.rows && 0 <= c < self.cols ==> self.at(r, c) == other.at(r, c),
        ensures
            self == other,
    {
        assert forall|k: int| 0 <= k < self.cells.len() implies self.cells[k] == other.cells[k] by {
            lemma_position_to_cell(self.rows, self.cols, k);
            let r = k / (self.cols as int);
            let c = k % (self.cols as int);
            assert(self.at(r, c) == other.at(r, c));
        }
        assert(self.cells =~= other.cells);
    }
}

impl<T: Scalar> Grid<T> {
    /// The integers that the cells stand for, in the same shape.
    pub open spec fn ints(self) -> Grid<int> {
        Grid {
            rows: self.rows,
            cols: self.cols,
            cells: Seq::new(self.cells.len(), |k: int| self.cells[k].val()),
        }
    }

    /// The integers that elements stand for are representable in their
    /// type.
    pub proof fn lemma_ints_fit(self)
        ensures
            self.ints().fits::<T>(),
    {
        assert forall|k: int| 0 <= k < self.ints().cells.len() implies T::fits(
            #[trigger] self.ints().cells[k],
        ) by {
            T::lemma_val_fits(self.cells[k]);
        }
    }

    /// A grid of elements is determined by the integers it stands for.
    pub proof fn lemma_ints_injective(self, other: Grid<T>)
        requires
            self.ints() == other.ints(),
        ensures
            self == other,
    {
        assert(self.cells.len() == self.ints().cells.len());
        assert(other.cells.len() == other.ints().cells.len());
        assert forall|k: int| 0 <= k < self.cells.len() implies self.cells[k] == other.cells[k] by {
            assert(self.ints().cells[k] == self.cells[k].val());
            assert(other.ints().cells[k] == other.cells[k].val());
            T::lemma_val_injective(self.cells[k], other.cells[k]);
        }
        assert(self.cells =~= other.cells);
    }
}

/// The sum of the first `n` cells of `s`, added from the left.
pub open spec fn prefix_sum(s: Seq<int>, n: nat) -> int
    decreases n,
{
    if n == 0 {
        0
    } else {
        prefix_sum(s, (n - 1) as nat) + s[n - 1]
    }
}

impl Grid<int> {
    /// Every cell is representable in `T`.
    pub open spec fn fits<T: Scalar>(self) -> bool {
        forall|k: int| 0 <= k < self.cells.len() ==> T::fits(#[trigger] self.cells[k])
    }

    /// The cellwise sum.
    pub open spec fn plus(self, other: Grid<int>) -> Grid<int> {
        Grid {
            rows: self.rows,
            cols: self.cols,
            cells: Seq::new(self.cells.len(), |k: int| self.cells[k] + other.cells[k]),
        }
    }

    /// The cellwise difference.
    pub open spec fn minus(self, other: Grid<int>) -> Grid<int> {
        Grid {
            rows: self.rows,
            cols: self.cols,
            cells: Seq::new(self.cells.len(), |k: int| self.cells[k] - other.cells[k]),
        }
    }

    /// The cellwise (Hadamard) product.
    pub open spec fn hadamard(self, other: Grid<int>) -> Grid<int> {
        Grid {
            rows: self.rows,
            cols: self.cols,
            cells: Seq::new(self.cells.len(), |k: int| self.cells[k] * other.cells[k]),
        }
    }

    /// Every cell multiplied by `k`.
    pub open spec fn scaled(self, k: int) -> Grid<int> {
        Grid {
            rows: self.rows,
            cols: self.cols,
            cells: Seq::new(self.cells.len(), |i: int| self.cells[i] * k),
        }
    }

    /// Every cell divided by `k`, rounded toward zero.
    pub open spec fn divided(self, k: int) -> Grid<int> {
        Grid {
            rows: self.rows,
            cols: self.cols,
            cells: Seq::new(self.cells.len(), |i: int| trunc_div(self.cells[i], k)),
        }
    }

    /// The sum of all cells, added in buffer order.
    pub open spec fn total(self) -> int {
        prefix_sum(self.cells, self.cells.len())
    }

    /// The cells can be added up in `T` in buffer order without leaving the
    /// representable range.
    pub open spec fn total_fits<T: Scalar>(self) -> bool {
        forall|n: nat| 0 < n <= self.cells.len() ==> T::fits(#[trigger] prefix_sum(self.cells, n))
    }

    /// The first `n` terms of the inner product of row `i` of `self` with
    /// column `j` of `rhs`.
    pub open spec fn dot(self, rhs: Grid<int>, i: int, j: int, n: nat) -> int
        decreases n,
    {
        if n == 0 {
            0
        } else {
            self.dot(rhs, i, j, (n - 1) as nat) + self.at(i, n - 1) * rhs.at(n - 1, j)
        }
    }

    /// Term `k` of the inner product for cell `(i, j)`, and the sum up to and
    /// including it, are representable in `T`.
    pub open spec fn dot_step_fits<T: Scalar>(
        self,
        rhs: Grid<int>,
        i: int,
        j: int,
        k: int,
    ) -> bool {
        &&& T::fits(self.at(i, k) * rhs.at(k, j))
        &&& T::fits(self.dot(rhs, i, j, (k + 1) as nat))
    }

    /// The product of `self` and `rhs` can be accumulated in `T` term by
    /// term without leaving the representable range.
    pub open spec fn matmul_fits<T: Scalar>(self, rhs: Grid<int>) -> bool {
        forall|i: int, j: int, k: int|
            0 <= i < self.rows && 0 <= j < rhs.cols && 0 <= k < self.cols
                ==> #[trigger] self.dot_step_fits::<T>(rhs, i, j, k)
    }

    /// The matrix product: cell `(i, j)` is the inner product of row `i` of
    /// `self` with column `j` of `rhs`.
    pub open spec fn matmul(self, rhs: Grid<int>) -> Grid<int> {
        Grid::from_fn(self.rows, rhs.cols, |i: int, j: int| self.dot(rhs, i, j, self.cols))
    }

    /// The `n` by `n` grid with one on the main diagonal and zero elsewhere.
    pub open spec fn identity(n: nat) -> Grid<int> {
        Grid::from_fn(
            n,
            n,
            |r: int, c: int|
                if r == c {
                    1int
                } else {
                    0int
                },
        )
    }
}

} // verus!
