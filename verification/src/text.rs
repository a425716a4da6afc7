//! The textual rendering of a matrix.

use vstd::prelude::*;
use vstd::string::*;
use core::fmt::Display;
use crate::grid::{flat, lemma_flat_in_bounds};
use crate::matrix::Matrix;

verus! {

/// The parts in order, with `sep` between each two neighbours.
pub open spec fn join(parts: Seq<Seq<char>>, sep: Seq<char>) -> Seq<char>
    decreases parts.len(),
{
    if parts.len() == 0 {
        Seq::empty()
    } else if parts.len() == 1 {
        parts[0]
    } else {
        join(parts.drop_last(), sep) + sep + parts.last()
    }
}

/// Joining one more part: the separator comes before it unless it is the
/// first.
pub proof fn lemma_join_push(parts: Seq<Seq<char>>, sep: Seq<char>, part: Seq<char>)
    ensures
        join(parts.push(part), sep) == if parts.len() == 0 {
            part
        } else {
            join(parts, sep) + sep + part
        },
{
    assert(parts.push(part).drop_last() =~= parts);
}

/// The texts of the cells of row `r`, in column order.
pub open spec fn row_cells(texts: Seq<Seq<char>>, cols: nat, r: int) -> Seq<Seq<char>> {
    Seq::new(cols, |c: int| texts[flat(cols, r, c)])
}

/// One row: its cells separated by a comma and a space, in square brackets.
pub open spec fn row_text(texts: Seq<Seq<char>>, cols: nat, r: int) -> Seq<char> {
    "["@ + join(row_cells(texts, cols, r), ", "@) + "]"@
}

/// The whole rendering: a line break, then the rows separated by a comma and
/// a line break, in square brackets. Two rows of two cells each come out as
/// a line break followed by `[[a, b],` on one line and `[c, d]]` on the next.
pub open spec fn layout(rows: nat, cols: nat, texts: Seq<Seq<char>>) -> Seq<char> {
    "\n["@ + join(Seq::new(rows, |r: int| row_text(texts, cols, r)), ",\n"@) + "]"@
}

/// The characters of each text of `texts`.
pub open spec fn text_views(texts: Seq<String>) -> Seq<Seq<char>> {
    Seq::new(texts.len(), |k: int| texts[k]@)
}

/// Lays out the texts of the cells of a `rows` by `cols` matrix, given in
/// row-major order.
pub fn render_cells(rows: usize, cols: usize, texts: &Vec<String>) -> (out: String)
    requires
        rows > 0,
        cols > 0,
        texts@.len() == rows * cols,
    ensures
        out@ == layout(rows as nat, cols as nat, text_views(texts@)),
{
    let ghost views = text_views(texts@);
    let ghost row_texts = Seq::new(rows as nat, |r: int| row_text(views, cols as nat, r));
    let total: usize = texts.len();
    let mut out = String::new();
    out.append("\n[");
    let mut row: usize = 0;
    while row < rows
        invariant
            rows > 0,
            cols > 0,
            texts@.len() == rows * cols,
            total == texts@.len(),
            views == text_views(texts@),
            row_texts == Seq::new(rows as nat, |r: int| row_text(views, cols as nat, r)),
            row <= rows,
            out@ == "\n["@ + join(row_texts.take(row as int), ",\n"@) + if 0 < row < rows {
                ",\n"@
            } else {
                Seq::empty()
            },
        decreases rows - row,
    {
        let ghost base = out@;
        let ghost cells = row_cells(views, cols as nat, row as int);
        out.append("[");
        let mut col: usize = 0;
        while col < cols
            invariant
                rows > 0,
                cols > 0,
                texts@.len() == rows * cols,
                total == texts@.len(),
                views == text_views(texts@),
                cells == row_cells(views, cols as nat, row as int),
                row < rows,
                col <= cols,
                out@ == base + "["@ + join(cells.take(col as int), ", "@) + if 0 < col < cols {
                    ", "@
                } else {
                    Seq::empty()
                },
            decreases cols - col,
        {
            proof {
                lemma_flat_in_bounds(rows as nat, cols as nat, row as int, col as int);
                lemma_join_push(cells.take(col as int), ", "@, cells[col as int]);
                assert(cells.take(col + 1) =~= cells.take(col as int).push(cells[col as int]));
            }
            let idx: usize = row * cols + col;
            out.append(texts[idx].as_str());
            if col != cols - 1 {
                out.append(", ");
            }
            col += 1;
        }
        out.append("]");
        proof {
            assert(cells.take(cols as int) =~= cells);
            lemma_join_push(row_texts.take(row as int), ",\n"@, row_texts[row as int]);
            assert(row_texts.take(row + 1) =~= row_texts.take(row as int).push(
                row_texts[row as int],
            ));
        }
        if row != rows - 1 {
            out.append(",\n");
        }
        row += 1;
    }
    out.append("]");
    assert(row_texts.take(rows as int) =~= row_texts);
    out
}

/// The text that the `Display` impl of `T` writes for `x` when asked for a
/// precision of two. Nothing is claimed of it.
#[verifier::external_body]
fn format_cell<T: Display>(x: &T) -> String {
    format!("{:.2}", x)
}

impl<T: Display> Matrix<T> {
    /// The rendering of the matrix: every cell formatted with a precision of
    /// two by its own `Display`, laid out as `layout` says.
    pub fn to_text(&self) -> (out: String)
        requires
            self.wf(),
        ensures
            exists|texts: Seq<Seq<char>>|
                texts.len() == self@.cells.len() && out@ == layout(self@.rows, self@.cols, texts),
    {
        let slice = self.as_slice();
        let n: usize = slice.len();
        let mut texts: Vec<String> = Vec::with_capacity(n);
        let mut i: usize = 0;
        while i < n
            invariant
                n == slice@.len(),
                i <= n,
                texts@.len() == i,
            decreases n - i,
        {
            texts.push(format_cell(&slice[i]));
            i += 1;
        }
        let out = render_cells(self.rows(), self.cols(), &texts);
        assert(text_views(texts@).len() == self@.cells.len());
        out
    }
}

} // verus!
