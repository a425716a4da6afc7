//! Building a matrix from its rows written out one by one.

use vstd::prelude::*;
use vstd::string::*;
use crate::grid::{flat, lemma_flat_in_bounds, Grid};
use crate::matrix::{Matrix, COL_DIM_ERROR, ROW_DIM_ERROR};

verus! {

/// Why a list of rows is not a matrix.
#[derive(Debug, Clone, Copy, PartialEq, Eq)]
pub enum LiteralError {
    /// Row `row`, counted from one, holds `found` cells where the first row
    /// holds `expected`.
    Ragged { row: usize, found: usize, expected: usize },
    /// The rows are of one length, but there is no row or no column; the
    /// text is what `Matrix::new` says of such dimensions.
    Dimension(&'static str),
}

/// Row `r` is the first whose length differs from that of row zero.
pub open spec fn first_ragged<T>(rows: Seq<Vec<T>>, r: int) -> bool {
    &&& 0 < r < rows.len()
    &&& rows[r]@.len() != rows[0]@.len()
    &&& forall|q: int| 0 < q < r ==> (#[trigger] rows[q])@.len() == rows[0]@.len()
}

/// All rows have the length of row zero.
pub open spec fn rectangular<T>(rows: Seq<Vec<T>>) -> bool {
    forall|q: int| 0 <= q < rows.len() ==> (#[trigger] rows[q])@.len() == rows[0]@.len()
}

/// Among the first `n` rows, either all have the length of row zero or one
/// of them is the first that has not.
proof fn lemma_ragged_or_rectangular_upto<T>(rows: Seq<Vec<T>>, n: nat)
    requires
        n <= rows.len(),
    ensures
        (forall|q: int| 0 <= q < n ==> (#[trigger] rows[q])@.len() == rows[0]@.len())
            || exists|bad: int| bad < n && first_ragged(rows, bad),
    decreases n,
{
    if n > 0 {
        lemma_ragged_or_rectangular_upto(rows, (n - 1) as nat);
        if forall|q: int| 0 <= q < n - 1 ==> (#[trigger] rows[q])@.len() == rows[0]@.len() {
            if rows[n - 1]@.len() != rows[0]@.len() {
                assert(first_ragged(rows, n - 1));
            }
        } else {
            let bad = choose|bad: int| bad < n - 1 && first_ragged(rows, bad);
            assert(bad < n && first_ragged(rows, bad));
        }
    }
}

/// Rows are of one length, or one of them is the first of another length:
/// `from_rows` has an answer for every list of rows.
pub proof fn lemma_ragged_or_rectangular<T>(rows: Seq<Vec<T>>)
    ensures
        rectangular(rows) || exists|bad: int| first_ragged(rows, bad),
{
    lemma_ragged_or_rectangular_upto(rows, rows.len());
}

/// The grid that rows of one length spell out: cell `(i, j)` is cell `j` of
/// row `i`.
pub open spec fn laid_out<T>(rows: Seq<Vec<T>>) -> Grid<T> {
    Grid::from_fn(rows.len(), rows[0]@.len(), |i: int, j: int| rows[i]@[j])
}

/// The decimal digit for `d`.
pub open spec fn digit(d: nat) -> char {
    if d == 0 {
        '0'
    } else if d == 1 {
        '1'
    } else if d == 2 {
        '2'
    } else if d == 3 {
        '3'
    } else if d == 4 {
        '4'
    } else if d == 5 {
        '5'
    } else if d == 6 {
        '6'
    } else if d == 7 {
        '7'
    } else if d == 8 {
        '8'
    } else {
        '9'
    }
}

/// The decimal numeral of `n`, without leading zeroes.
pub open spec fn decimal(n: nat) -> Seq<char>
    decreases n,
{
    if n < 10 {
        seq![digit(n)]
    } else {
        decimal(n / 10).push(digit(n % 10))
    }
}

/// `ToString::to_string` of a `usize`, which writes the decimal numeral.
#[verifier::external_body]
fn numeral(n: usize) -> (s: String)
    ensures
        s@ == decimal(n as nat),
{
    n.to_string()
}

impl LiteralError {
    /// What `message` returns.
    pub open spec fn message_spec(self) -> Seq<char> {
        match self {
            LiteralError::Ragged { row, found, expected } => {
                "Row "@ + decimal(row as nat) + " has "@ + decimal(found as nat)
                    + " cols, expected "@ + decimal(expected as nat)
            },
            LiteralError::Dimension(text) => text@,
        }
    }

    /// The error in words.
    pub fn message(&self) -> (s: String)
        ensures
            s@ == self.message_spec(),
    {
        match self {
            LiteralError::Ragged { row, found, expected } => {
                let mut s = String::new();
                s.append("Row ");
                s.append(numeral(*row).as_str());
                s.append(" has ");
                s.append(numeral(*found).as_str());
                s.append(" cols, expected ");
                s.append(numeral(*expected).as_str());
                s
            },
            LiteralError::Dimension(text) => {
                let mut s = String::new();
                s.append(text);
                s
            },
        }
    }
}

impl<T: Copy> Matrix<T> {
    /// Builds a matrix from its rows, each given as the list of its cells.
    /// The first row sets the number of columns; the first later row of
    /// another length is reported, and after that a missing row or column.
    pub fn from_rows(rows: Vec<Vec<T>>) -> (r: Result<Matrix<T>, LiteralError>)
        ensures
            forall|bad: int|
                first_ragged(rows@, bad) ==> r is Err && r->Err_0 == (LiteralError::Ragged {
                    row: (bad + 1) as usize,
                    found: rows@[bad]@.len() as usize,
                    expected: rows@[0]@.len() as usize,
                }),
            rectangular(rows@) && rows@.len() == 0
                ==> r is Err && r->Err_0 == LiteralError::Dimension(ROW_DIM_ERROR),
            rectangular(rows@) && rows@.len() > 0 && rows@[0]@.len() == 0
                ==> r is Err && r->Err_0 == LiteralError::Dimension(COL_DIM_ERROR),
            rectangular(rows@) && rows@.len() > 0 && rows@[0]@.len() > 0
                ==> r is Ok && r->Ok_0.wf() && r->Ok_0@ == laid_out(rows@),
    {
        let count: usize = rows.len();
        let mut data: Vec<T> = Vec::new();
        let mut cols: usize = 0;
        let mut i: usize = 0;
        while i < count
            invariant
                count == rows@.len(),
                i <= count,
                i > 0 ==> cols == rows@[0]@.len(),
                i == 0 ==> cols == 0,
                forall|q: int| 0 <= q < i ==> (#[trigger] rows@[q])@.len() == cols,
                data@.len() == i * cols,
                forall|r: int, c: int|
                    0 <= r < i && 0 <= c < cols
                        ==> data@[flat(cols as nat, r, c)] == #[trigger] rows@[r]@[c],
            decreases count - i,
        {
            let row = &rows[i];
            let width: usize = row.len();
            if i == 0 {
                cols = width;
            } else if width != cols {
                return Err(LiteralError::Ragged { row: i + 1, found: width, expected: cols });
            }
            let ghost before = data@;
            let mut j: usize = 0;
            while j < width
                invariant
                    width == cols,
                    width == row@.len(),
                    row == rows@[i as int],
                    i < count,
                    count == rows@.len(),
                    j <= width,
                    before.len() == i * cols,
                    data@.len() == before.len() + j,
                    forall|k: int| 0 <= k < before.len() ==> data@[k] == before[k],
                    forall|c: int| 0 <= c < j ==> data@[flat(cols as nat, i as int, c)] == row@[c],
                decreases width - j,
            {
                data.push(row[j]);
                j += 1;
            }
            proof {
                assert((i + 1) * cols == i * cols + cols) by (nonlinear_arith);
                assert forall|r: int, c: int| 0 <= r < i + 1 && 0 <= c < cols
                    implies data@[flat(cols as nat, r, c)] == #[trigger] rows@[r]@[c] by {
                    if r < i {
                        lemma_flat_in_bounds(i as nat, cols as nat, r, c);
                    }
                }
            }
            i += 1;
        }
        match Matrix::new(count, cols, data) {
            Ok(m) => {
                proof {
                    let want = laid_out(rows@);
                    assert forall|r: int, c: int| 0 <= r < count && 0 <= c < cols
                        implies m@.at(r, c) == want.at(r, c) by {
                        Grid::lemma_from_fn_at(
                            count as nat,
                            cols as nat,
                            |i: int, j: int| rows@[i]@[j],
                            r,
                            c,
                        );
                    }
                    m@.lemma_equal_by_cells(want);
                }
                Ok(m)
            },
            Err(text) => Err(LiteralError::Dimension(text)),
        }
    }
}

} // verus!
