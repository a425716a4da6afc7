//! Algebraic laws of the matrix operations, proved over the model that the
//! contracts of the operations are stated in.

use vstd::prelude::*;
use crate::grid::{lemma_flat_in_bounds, Grid};
use crate::scalar::{trunc_div, Scalar};

verus! {

/// Transposing twice gives the matrix back, shape and cells.
pub proof fn lemma_transpose_involution<A>(m: Grid<A>)
    requires
        m.wf(),
    ensures
        m.transpose().transpose() == m,
{
    let t = m.transpose();
    let tt = t.transpose();
    assert forall|r: int, c: int| 0 <= r < m.rows && 0 <= c < m.cols implies tt.at(r, c) == m.at(
        r,
        c,
    ) by {
        Grid::lemma_from_fn_at(t.cols, t.rows, |r: int, c: int| t.at(c, r), r, c);
        Grid::lemma_from_fn_at(m.cols, m.rows, |r: int, c: int| m.at(c, r), c, r);
    }
    tt.lemma_equal_by_cells(m);
}

/// A cell of the identity is one on the diagonal and zero off it.
pub proof fn lemma_identity_at(n: nat, r: int, c: int)
    requires
        0 <= r < n,
        0 <= c < n,
    ensures
        Grid::identity(n).at(r, c) == if r == c {
            1int
        } else {
            0int
        },
{
    Grid::lemma_from_fn_at(
        n,
        n,
        |r: int, c: int|
            if r == c {
                1int
            } else {
                0int
            },
        r,
        c,
    );
}

/// Against the identity on the right, the inner product for cell `(i, j)`
/// is zero until term `j` has been added, and cell `(i, j)` from then on.
proof fn lemma_dot_identity_right(m: Grid<int>, i: int, j: int, t: nat)
    requires
        m.wf(),
        0 <= i < m.rows,
        0 <= j < m.cols,
        t <= m.cols,
    ensures
        m.dot(Grid::identity(m.cols), i, j, t) == if j < t {
            m.at(i, j)
        } else {
            0
        },
    decreases t,
{
    if t > 0 {
        lemma_dot_identity_right(m, i, j, (t - 1) as nat);
        lemma_identity_at(m.cols, t - 1, j);
    }
}

/// Against the identity on the left, the inner product for cell `(i, j)`
/// is zero until term `i` has been added, and cell `(i, j)` from then on.
proof fn lemma_dot_identity_left(m: Grid<int>, i: int, j: int, t: nat)
    requires
        m.wf(),
        0 <= i < m.rows,
        0 <= j < m.cols,
        t <= m.rows,
    ensures
        Grid::identity(m.rows).dot(m, i, j, t) == if i < t {
            m.at(i, j)
        } else {
            0
        },
    decreases t,
{
    if t > 0 {
        lemma_dot_identity_left(m, i, j, (t - 1) as nat);
        lemma_identity_at(m.rows, i, t - 1);
    }
}

/// Multiplying by the identity on the right gives the matrix back.
pub proof fn lemma_matmul_identity_right(m: Grid<int>)
    requires
        m.wf(),
    ensures
        m.matmul(Grid::identity(m.cols)) == m,
{
    let id = Grid::<int>::identity(m.cols);
    let p = m.matmul(id);
    assert forall|i: int, j: int| 0 <= i < m.rows && 0 <= j < m.cols implies p.at(i, j) == m.at(
        i,
        j,
    ) by {
        Grid::lemma_from_fn_at(m.rows, id.cols, |i: int, j: int| m.dot(id, i, j, m.cols), i, j);
        lemma_dot_identity_right(m, i, j, m.cols);
    }
    p.lemma_equal_by_cells(m);
}

/// Multiplying by the identity on the left gives the matrix back.
pub proof fn lemma_matmul_identity_left(m: Grid<int>)
    requires
        m.wf(),
    ensures
        Grid::identity(m.rows).matmul(m) == m,
{
    let id = Grid::<int>::identity(m.rows);
    let p = id.matmul(m);
    assert forall|i: int, j: int| 0 <= i < m.rows && 0 <= j < m.cols implies p.at(i, j) == m.at(
        i,
        j,
    ) by {
        Grid::lemma_from_fn_at(id.rows, m.cols, |i: int, j: int| id.dot(m, i, j, id.cols), i, j);
        lemma_dot_identity_left(m, i, j, m.rows);
    }
    p.lemma_equal_by_cells(m);
}

/// The products of a matrix with the identity, on either side, can be
/// accumulated in the element type of the matrix.
pub proof fn lemma_matmul_identity_fits<T: Scalar>(m: Grid<int>)
    requires
        m.wf(),
        m.fits::<T>(),
    ensures
        m.matmul_fits::<T>(Grid::identity(m.cols)),
        Grid::identity(m.rows).matmul_fits::<T>(m),
{
    T::lemma_identities_fit();
    let right = Grid::<int>::identity(m.cols);
    let left = Grid::<int>::identity(m.rows);
    assert forall|i: int, j: int, k: int|
        0 <= i < m.rows && 0 <= j < right.cols && 0 <= k < m.cols
        implies #[trigger] m.dot_step_fits::<T>(right, i, j, k) by {
        lemma_flat_in_bounds(m.rows, m.cols, i, k);
        lemma_identity_at(m.cols, k, j);
        lemma_dot_identity_right(m, i, j, (k + 1) as nat);
    }
    assert forall|i: int, j: int, k: int|
        0 <= i < left.rows && 0 <= j < m.cols && 0 <= k < left.cols
        implies #[trigger] left.dot_step_fits::<T>(m, i, j, k) by {
        lemma_flat_in_bounds(m.rows, m.cols, i, j);
        lemma_identity_at(m.rows, i, k);
        lemma_dot_identity_left(m, i, j, (k + 1) as nat);
    }
}

/// Against a matrix of zeroes, every inner product is zero.
proof fn lemma_dot_zero(m: Grid<int>, cols: nat, i: int, j: int, t: nat)
    requires
        m.wf(),
        0 <= i < m.rows,
        0 <= j < cols,
        t <= m.cols,
    ensures
        m.dot(Grid::filled(m.cols, cols, 0int), i, j, t) == 0,
    decreases t,
{
    if t > 0 {
        lemma_dot_zero(m, cols, i, j, (t - 1) as nat);
        lemma_flat_in_bounds(m.cols, cols, t - 1, j);
    }
}

/// Multiplying by a matrix of zeroes gives the matrix of zeroes of the
/// shape of the product.
pub proof fn lemma_matmul_zero(m: Grid<int>, cols: nat)
    requires
        m.wf(),
        cols > 0,
    ensures
        m.matmul(Grid::filled(m.cols, cols, 0int)) == Grid::filled(m.rows, cols, 0int),
{
    let zero = Grid::filled(m.cols, cols, 0int);
    let p = m.matmul(zero);
    let want = Grid::filled(m.rows, cols, 0int);
    assert forall|i: int, j: int| 0 <= i < m.rows && 0 <= j < cols implies p.at(i, j) == want.at(
        i,
        j,
    ) by {
        Grid::lemma_from_fn_at(m.rows, cols, |i: int, j: int| m.dot(zero, i, j, m.cols), i, j);
        lemma_dot_zero(m, cols, i, j, m.cols);
        lemma_flat_in_bounds(m.rows, cols, i, j);
    }
    p.lemma_equal_by_cells(want);
}

/// The product of a matrix with a matrix of zeroes can be accumulated in
/// any element type.
pub proof fn lemma_matmul_zero_fits<T: Scalar>(m: Grid<int>, cols: nat)
    requires
        m.wf(),
        cols > 0,
    ensures
        m.matmul_fits::<T>(Grid::filled(m.cols, cols, 0int)),
{
    T::lemma_identities_fit();
    let zero = Grid::filled(m.cols, cols, 0int);
    assert forall|i: int, j: int, k: int|
        0 <= i < m.rows && 0 <= j < zero.cols && 0 <= k < m.cols
        implies #[trigger] m.dot_step_fits::<T>(zero, i, j, k) by {
        lemma_flat_in_bounds(m.cols, cols, k, j);
        lemma_dot_zero(m, cols, i, j, (k + 1) as nat);
    }
}

/// The matrix of zeroes is representable in every element type.
pub proof fn lemma_zero_fits<T: Scalar>(rows: nat, cols: nat)
    ensures
        Grid::filled(rows, cols, 0int).fits::<T>(),
{
    T::lemma_identities_fit();
}

/// Adding the matrix of zeroes changes nothing.
pub proof fn lemma_plus_zero(m: Grid<int>)
    requires
        m.wf(),
    ensures
        m.plus(Grid::filled(m.rows, m.cols, 0int)) == m,
{
    assert(m.plus(Grid::filled(m.rows, m.cols, 0int)).cells =~= m.cells);
}

/// A matrix minus itself is the matrix of zeroes.
pub proof fn lemma_minus_self(m: Grid<int>)
    requires
        m.wf(),
    ensures
        m.minus(m) == Grid::filled(m.rows, m.cols, 0int),
{
    assert(m.minus(m).cells =~= Grid::filled(m.rows, m.cols, 0int).cells);
}

/// Scaling by one changes nothing.
pub proof fn lemma_scaled_by_one(m: Grid<int>)
    ensures
        m.scaled(1) == m,
{
    assert(m.scaled(1).cells =~= m.cells);
}

/// Scaling by zero gives the matrix of zeroes.
pub proof fn lemma_scaled_by_zero(m: Grid<int>)
    requires
        m.wf(),
    ensures
        m.scaled(0) == Grid::filled(m.rows, m.cols, 0int),
{
    assert(m.scaled(0).cells =~= Grid::filled(m.rows, m.cols, 0int).cells);
}

/// Dividing a product by its nonzero factor gives the other factor.
pub proof fn lemma_trunc_div_cancels(a: int, k: int)
    requires
        k != 0,
    ensures
        trunc_div(a * k, k) == a,
{
    if a * k >= 0 {
        assert((a * k) / k == a) by (nonlinear_arith)
            requires
                k != 0,
        ;
    } else {
        assert((-(a * k)) / k == -a) by (nonlinear_arith)
            requires
                k != 0,
        ;
    }
}

/// Scaling by a nonzero scalar and dividing by it again gives the matrix
/// back.
pub proof fn lemma_scaled_then_divided(m: Grid<int>, k: int)
    requires
        k != 0,
    ensures
        m.scaled(k).divided(k) == m,
{
    let back = m.scaled(k).divided(k);
    assert forall|i: int| 0 <= i < m.cells.len() implies back.cells[i] == m.cells[i] by {
        lemma_trunc_div_cancels(m.cells[i], k);
    }
    assert(back.cells =~= m.cells);
}

} // verus!
