//! Matrix multiplication, as the method `matmul` and as the operator `*`
//! between two matrices.

use vstd::prelude::*;
use vstd::std_specs::ops::MulSpecImpl;
use core::ops::Mul;
use crate::grid::{flat, lemma_flat_div_mod, lemma_flat_in_bounds, Grid};
use crate::matrix::{repeat, Matrix};
use crate::scalar::Scalar;

verus! {

/// How many terms of its inner product cell `(r, c)` of the accumulator
/// holds when the loops of `matmul` stand at row `i`, term `k`, column `j`:
/// all of them in the rows above `i`, none in the rows below, and in row `i`
/// one more to the left of `j` than from `j` on.
spec fn terms_done(n: nat, i: int, k: int, j: int, r: int, c: int) -> nat {
    if r < i {
        n
    } else if r == i {
        if c < j {
            (k + 1) as nat
        } else {
            k as nat
        }
    } else {
        0
    }
}

/// Cell `(r, c)` of the accumulator stands for the first `n` terms of its
/// inner product.
spec fn holds_terms<T: Scalar>(
    acc: Seq<T>,
    a: Grid<int>,
    b: Grid<int>,
    r: int,
    c: int,
    n: nat,
) -> bool {
    acc[flat(b.cols, r, c)].val() == a.dot(b, r, c, n)
}

/// The accumulator holds, in every cell, the terms that `terms_done` counts.
spec fn accumulated<T: Scalar>(
    acc: Seq<T>,
    a: Grid<int>,
    b: Grid<int>,
    i: int,
    k: int,
    j: int,
) -> bool {
    &&& acc.len() == a.rows * b.cols
    &&& forall|r: int, c: int|
        0 <= r < a.rows && 0 <= c < b.cols
            ==> #[trigger] holds_terms(acc, a, b, r, c, terms_done(a.cols, i, k, j, r, c))
}

/// What the loops of `matmul` keep: the operands, the integers they stand
/// for, and the bounds that keep every index inside its buffer.
spec fn operands<T: Scalar>(lhs: &Matrix<T>, rhs: &Matrix<T>, a: Grid<int>, b: Grid<int>) -> bool {
    &&& lhs.wf()
    &&& rhs.wf()
    &&& a == lhs@.ints()
    &&& b == rhs@.ints()
    &&& a.cols == b.rows
    &&& a.matmul_fits::<T>(b)
    &&& a.rows * a.cols <= usize::MAX
    &&& b.rows * b.cols <= usize::MAX
    &&& a.rows * b.cols <= usize::MAX
}

impl<T: Scalar> Matrix<T> {
    /// The matrix product of `self` and `other`, accumulated row by row of
    /// `self`, term by term, along the rows of `other`.
    pub fn matmul(&self, other: &Matrix<T>) -> (out: Matrix<T>)
        requires
            self.wf(),
            other.wf(),
            self@.cols == other@.rows,
            self@.rows * other@.cols <= usize::MAX,
            self@.ints().matmul_fits::<T>(other@.ints()),
        ensures
            out.wf(),
            out@.ints() == self@.ints().matmul(other@.ints()),
    {
        let lhs_rows: usize = self.rows();
        let lhs_cols: usize = self.cols();
        let rhs_cols: usize = other.cols();
        let lhs_slice = self.as_slice();
        let rhs_slice = other.as_slice();
        let ghost a = self@.ints();
        let ghost b = other@.ints();
        assert(a.rows * a.cols == lhs_slice.len() && b.rows * b.cols == rhs_slice.len());

        let mut result: Vec<T> = repeat(T::zero_value(), lhs_rows * rhs_cols);
        assert(accumulated(result@, a, b, 0, 0, 0)) by {
            assert forall|r: int, c: int| 0 <= r < a.rows && 0 <= c < b.cols
                implies #[trigger] holds_terms(
                result@,
                a,
                b,
                r,
                c,
                terms_done(a.cols, 0, 0, 0, r, c),
            ) by {
                lemma_flat_in_bounds(a.rows, b.cols, r, c);
            }
        }

        let mut i: usize = 0;
        while i < lhs_rows
            invariant
                operands(self, other, a, b),
                lhs_rows == a.rows,
                lhs_cols == a.cols,
                rhs_cols == b.cols,
                lhs_slice@ == self@.cells,
                rhs_slice@ == other@.cells,
                i <= lhs_rows,
                accumulated(result@, a, b, i as int, 0, 0),
            decreases lhs_rows - i,
        {
            let mut k: usize = 0;
            while k < lhs_cols
                invariant
                    operands(self, other, a, b),
                    lhs_rows == a.rows,
                    lhs_cols == a.cols,
                    rhs_cols == b.cols,
                    lhs_slice@ == self@.cells,
                    rhs_slice@ == other@.cells,
                    i < lhs_rows,
                    k <= lhs_cols,
                    accumulated(result@, a, b, i as int, k as int, 0),
                decreases lhs_cols - k,
            {
                proof {
                    lemma_flat_in_bounds(a.rows, a.cols, i as int, k as int);
                }
                let lhs_val: T = lhs_slice[i * lhs_cols + k];

                let mut j: usize = 0;
                while j < rhs_cols
                    invariant
                        operands(self, other, a, b),
                        lhs_rows == a.rows,
                        lhs_cols == a.cols,
                        rhs_cols == b.cols,
                        rhs_slice@ == other@.cells,
                        i < lhs_rows,
                        k < lhs_cols,
                        j <= rhs_cols,
                        lhs_val.val() == a.at(i as int, k as int),
                        accumulated(result@, a, b, i as int, k as int, j as int),
                    decreases rhs_cols - j,
                {
                    proof {
                        lemma_flat_in_bounds(b.rows, b.cols, k as int, j as int);
                        lemma_flat_in_bounds(a.rows, b.cols, i as int, j as int);
                        assert(a.dot_step_fits::<T>(b, i as int, j as int, k as int));
                        assert(holds_terms(
                            result@,
                            a,
                            b,
                            i as int,
                            j as int,
                            terms_done(a.cols, i as int, k as int, j as int, i as int, j as int),
                        ));
                    }
                    let rhs_val: T = rhs_slice[k * rhs_cols + j];
                    let res_idx: usize = i * rhs_cols + j;
                    let ghost before = result@;
                    let sum: T = result[res_idx].plus(lhs_val.times(rhs_val));
                    result.set(res_idx, sum);
                    assert(accumulated(result@, a, b, i as int, k as int, j + 1)) by {
                        assert forall|r: int, c: int| 0 <= r < a.rows && 0 <= c < b.cols
                            implies #[trigger] holds_terms(
                            result@,
                            a,
                            b,
                            r,
                            c,
                            terms_done(a.cols, i as int, k as int, j + 1, r, c),
                        ) by {
                            lemma_flat_in_bounds(a.rows, b.cols, r, c);
                            lemma_flat_div_mod(b.cols, r, c);
                            lemma_flat_div_mod(b.cols, i as int, j as int);
                            assert(holds_terms(
                                before,
                                a,
                                b,
                                r,
                                c,
                                terms_done(a.cols, i as int, k as int, j as int, r, c),
                            ));
                        }
                    }
                    j += 1;
                }
                assert(accumulated(result@, a, b, i as int, k + 1, 0)) by {
                    assert forall|r: int, c: int| 0 <= r < a.rows && 0 <= c < b.cols
                        implies #[trigger] holds_terms(
                        result@,
                        a,
                        b,
                        r,
                        c,
                        terms_done(a.cols, i as int, k + 1, 0, r, c),
                    ) by {
                        assert(holds_terms(
                            result@,
                            a,
                            b,
                            r,
                            c,
                            terms_done(a.cols, i as int, k as int, rhs_cols as int, r, c),
                        ));
                    }
                }
                k += 1;
            }
            assert(accumulated(result@, a, b, i + 1, 0, 0)) by {
                assert forall|r: int, c: int| 0 <= r < a.rows && 0 <= c < b.cols
                    implies #[trigger] holds_terms(
                    result@,
                    a,
                    b,
                    r,
                    c,
                    terms_done(a.cols, i + 1, 0, 0, r, c),
                ) by {
                    assert(holds_terms(
                        result@,
                        a,
                        b,
                        r,
                        c,
                        terms_done(a.cols, i as int, lhs_cols as int, 0, r, c),
                    ));
                }
            }
            i += 1;
        }

        let out = Matrix::new(lhs_rows, rhs_cols, result).unwrap();
        proof {
            let want = a.matmul(b);
            assert forall|r: int, c: int| 0 <= r < a.rows && 0 <= c < b.cols
                implies out@.ints().at(r, c) == want.at(r, c) by {
                lemma_flat_in_bounds(a.rows, b.cols, r, c);
                Grid::lemma_from_fn_at(
                    a.rows,
                    b.cols,
                    |i: int, j: int| a.dot(b, i, j, a.cols),
                    r,
                    c,
                );
                assert(holds_terms(
                    result@,
                    a,
                    b,
                    r,
                    c,
                    terms_done(a.cols, lhs_rows as int, 0, 0, r, c),
                ));
            }
            out@.ints().lemma_equal_by_cells(want);
        }
        out
    }
}

impl<T: Scalar> MulSpecImpl<&Matrix<T>> for &Matrix<T> {
    open spec fn obeys_mul_spec() -> bool {
        false
    }

    /// The operands can be multiplied: what `matmul` requires.
    open spec fn mul_req(self, rhs: &Matrix<T>) -> bool {
        &&& self.wf()
        &&& rhs.wf()
        &&& self@.cols == rhs@.rows
        &&& self@.rows * rhs@.cols <= usize::MAX
        &&& self@.ints().matmul_fits::<T>(rhs@.ints())
    }

    open spec fn mul_spec(self, rhs: &Matrix<T>) -> Matrix<T> {
        arbitrary()
    }
}

impl<T: Scalar> Mul<&Matrix<T>> for &Matrix<T> {
    type Output = Matrix<T>;

    /// The matrix product, as `matmul` computes it.
    fn mul(self, rhs: &Matrix<T>) -> (out: Matrix<T>)
        ensures
            out.wf(),
            out@.ints() == self@.ints().matmul(rhs@.ints()),
    {
        self.matmul(rhs)
    }
}

} // verus!
