//! Cellwise and scalar arithmetic, allocating and in place.
//!
//! The operators `+`, `-`, `*` and `/` are those of std. What an operator
//! requires of its operands is its `*_req`; what it returns is stated in the
//! `ensures` of its method. A matrix owns its buffer and is no specification
//! value, so no `*_spec` describes a result and every `obeys_*_spec` is
//! false.
//!
//! The in-place forms are methods: `add_assign` and `sub_assign` hand the
//! matrix back, so that calls can be chained.

use vstd::prelude::*;
use vstd::std_specs::ops::{AddSpecImpl, DivSpecImpl, MulSpecImpl, SubSpecImpl};
use core::ops::{Add, Div, Mul, Sub};
use crate::grid::prefix_sum;
use crate::matrix::Matrix;
use crate::scalar::Scalar;

verus! {

impl<T: Scalar> AddSpecImpl<&Matrix<T>> for &Matrix<T> {
    open spec fn obeys_add_spec() -> bool {
        false
    }

    /// Both operands have one shape, and every cellwise sum is
    /// representable.
    open spec fn add_req(self, rhs: &Matrix<T>) -> bool {
        &&& self.wf()
        &&& rhs.wf()
        &&& self@.same_shape(rhs@)
        &&& self@.ints().plus(rhs@.ints()).fits::<T>()
    }

    open spec fn add_spec(self, rhs: &Matrix<T>) -> Matrix<T> {
        arbitrary()
    }
}

impl<T: Scalar> Add<&Matrix<T>> for &Matrix<T> {
    type Output = Matrix<T>;

    /// The cellwise sum of two matrices of one shape.
    fn add(self, rhs: &Matrix<T>) -> (out: Matrix<T>)
        ensures
            out.wf(),
            out@.ints() == self@.ints().plus(rhs@.ints()),
    {
        let lhs_slice = self.as_slice();
        let rhs_slice = rhs.as_slice();
        let n: usize = lhs_slice.len();
        let ghost want = self@.ints().plus(rhs@.ints());
        let mut result: Vec<T> = Vec::with_capacity(n);
        let mut i: usize = 0;
        while i < n
            invariant
                lhs_slice@ == self@.cells,
                rhs_slice@ == rhs@.cells,
                n == lhs_slice@.len(),
                n == rhs_slice@.len(),
                want == self@.ints().plus(rhs@.ints()),
                want.cells.len() == n,
                want.fits::<T>(),
                i <= n,
                result@.len() == i,
                forall|k: int| 0 <= k < i ==> (#[trigger] result@[k]).val() == want.cells[k],
            decreases n - i,
        {
            assert(T::fits(want.cells[i as int]));
            result.push(lhs_slice[i].plus(rhs_slice[i]));
            i += 1;
        }
        let out = Matrix::new(self.rows(), self.cols(), result).unwrap();
        assert(out@.ints().cells =~= want.cells);
        out
    }
}

impl<T: Scalar> SubSpecImpl<&Matrix<T>> for &Matrix<T> {
    open spec fn obeys_sub_spec() -> bool {
        false
    }

    /// Both operands have one shape, and every cellwise difference is
    /// representable.
    open spec fn sub_req(self, rhs: &Matrix<T>) -> bool {
        &&& self.wf()
        &&& rhs.wf()
        &&& self@.same_shape(rhs@)
        &&& self@.ints().minus(rhs@.ints()).fits::<T>()
    }

    open spec fn sub_spec(self, rhs: &Matrix<T>) -> Matrix<T> {
        arbitrary()
    }
}

impl<T: Scalar> Sub<&Matrix<T>> for &Matrix<T> {
    type Output = Matrix<T>;

    /// The cellwise difference of two matrices of one shape.
    fn sub(self, rhs: &Matrix<T>) -> (out: Matrix<T>)
        ensures
            out.wf(),
            out@.ints() == self@.ints().minus(rhs@.ints()),
    {
        let lhs_slice = self.as_slice();
        let rhs_slice = rhs.as_slice();
        let n: usize = lhs_slice.len();
        let ghost want = self@.ints().minus(rhs@.ints());
        let mut result: Vec<T> = Vec::with_capacity(n);
        let mut i: usize = 0;
        while i < n
            invariant
                lhs_slice@ == self@.cells,
                rhs_slice@ == rhs@.cells,
                n == lhs_slice@.len(),
                n == rhs_slice@.len(),
                want == self@.ints().minus(rhs@.ints()),
                want.cells.len() == n,
                want.fits::<T>(),
                i <= n,
                result@.len() == i,
                forall|k: int| 0 <= k < i ==> (#[trigger] result@[k]).val() == want.cells[k],
            decreases n - i,
        {
            assert(T::fits(want.cells[i as int]));
            result.push(lhs_slice[i].minus(rhs_slice[i]));
            i += 1;
        }
        let out = Matrix::new(self.rows(), self.cols(), result).unwrap();
        assert(out@.ints().cells =~= want.cells);
        out
    }
}

impl<T: Scalar> MulSpecImpl<T> for &Matrix<T> {
    open spec fn obeys_mul_spec() -> bool {
        false
    }

    /// Every scaled cell is representable.
    open spec fn mul_req(self, rhs: T) -> bool {
        &&& self.wf()
        &&& self@.ints().scaled(rhs.val()).fits::<T>()
    }

    open spec fn mul_spec(self, rhs: T) -> Matrix<T> {
        arbitrary()
    }
}

impl<T: Scalar> Mul<T> for &Matrix<T> {
    type Output = Matrix<T>;

    /// Every cell multiplied by the scalar `rhs`.
    fn mul(self, rhs: T) -> (out: Matrix<T>)
        ensures
            out.wf(),
            out@.ints() == self@.ints().scaled(rhs.val()),
    {
        let lhs_slice = self.as_slice();
        let n: usize = lhs_slice.len();
        let ghost want = self@.ints().scaled(rhs.val());
        let mut result: Vec<T> = Vec::with_capacity(n);
        let mut i: usize = 0;
        while i < n
            invariant
                lhs_slice@ == self@.cells,
                n == lhs_slice@.len(),
                want == self@.ints().scaled(rhs.val()),
                want.cells.len() == n,
                want.fits::<T>(),
                i <= n,
                result@.len() == i,
                forall|k: int| 0 <= k < i ==> (#[trigger] result@[k]).val() == want.cells[k],
            decreases n - i,
        {
            assert(T::fits(want.cells[i as int]));
            result.push(lhs_slice[i].times(rhs));
            i += 1;
        }
        let out = Matrix::new(self.rows(), self.cols(), result).unwrap();
        assert(out@.ints().cells =~= want.cells);
        out
    }
}

impl<T: Scalar> DivSpecImpl<T> for &Matrix<T> {
    open spec fn obeys_div_spec() -> bool {
        false
    }

    /// The divisor is not zero, and every quotient is representable.
    open spec fn div_req(self, rhs: T) -> bool {
        &&& self.wf()
        &&& rhs.val() != 0
        &&& self@.ints().divided(rhs.val()).fits::<T>()
    }

    open spec fn div_spec(self, rhs: T) -> Matrix<T> {
        arbitrary()
    }
}

impl<T: Scalar> Div<T> for &Matrix<T> {
    type Output = Matrix<T>;

    /// Every cell divided by the scalar `rhs`, rounding toward zero.
    fn div(self, rhs: T) -> (out: Matrix<T>)
        ensures
            out.wf(),
            out@.ints() == self@.ints().divided(rhs.val()),
    {
        let lhs_slice = self.as_slice();
        let n: usize = lhs_slice.len();
        let ghost want = self@.ints().divided(rhs.val());
        let mut result: Vec<T> = Vec::with_capacity(n);
        let mut i: usize = 0;
        while i < n
            invariant
                lhs_slice@ == self@.cells,
                n == lhs_slice@.len(),
                want == self@.ints().divided(rhs.val()),
                want.cells.len() == n,
                want.fits::<T>(),
                rhs.val() != 0,
                i <= n,
                result@.len() == i,
                forall|k: int| 0 <= k < i ==> (#[trigger] result@[k]).val() == want.cells[k],
            decreases n - i,
        {
            assert(T::fits(want.cells[i as int]));
            result.push(lhs_slice[i].quot(rhs));
            i += 1;
        }
        let out = Matrix::new(self.rows(), self.cols(), result).unwrap();
        assert(out@.ints().cells =~= want.cells);
        out
    }
}

impl<T: Scalar> Matrix<T> {
    /// Adds `rhs` to `self` cell by cell, in the buffer of `self`, and hands
    /// `self` back.
    pub fn add_assign(&mut self, rhs: &Matrix<T>) -> (out: &mut Matrix<T>)
        requires
            old(self).wf(),
            rhs.wf(),
            old(self)@.same_shape(rhs@),
            old(self)@.ints().plus(rhs@.ints()).fits::<T>(),
        ensures
            out.wf(),
            out@.ints() == old(self)@.ints().plus(rhs@.ints()),
            *final(self) == *final(out),
    {
        let rhs_slice = rhs.as_slice();
        let n: usize = rhs_slice.len();
        let ghost before = self@;
        let ghost want = self@.ints().plus(rhs@.ints());
        let mut i: usize = 0;
        while i < n
            invariant
                rhs_slice@ == rhs@.cells,
                n == rhs_slice@.len(),
                before.wf(),
                self@.same_shape(before),
                self@.cells.len() == n,
                want == before.ints().plus(rhs@.ints()),
                want.cells.len() == n,
                want.fits::<T>(),
                i <= n,
                forall|k: int| 0 <= k < i ==> (#[trigger] self@.cells[k]).val() == want.cells[k],
                forall|k: int| i <= k < n ==> #[trigger] self@.cells[k] == before.cells[k],
            decreases n - i,
        {
            assert(T::fits(want.cells[i as int]));
            let lhs_val: T = self.as_slice()[i];
            self.put(i, lhs_val.plus(rhs_slice[i]));
            i += 1;
        }
        assert(self@.ints().cells =~= want.cells);
        self
    }

    /// Subtracts `rhs` from `self` cell by cell, in the buffer of `self`, and
    /// hands `self` back.
    pub fn sub_assign(&mut self, rhs: &Matrix<T>) -> (out: &mut Matrix<T>)
        requires
            old(self).wf(),
            rhs.wf(),
            old(self)@.same_shape(rhs@),
            old(self)@.ints().minus(rhs@.ints()).fits::<T>(),
        ensures
            out.wf(),
            out@.ints() == old(self)@.ints().minus(rhs@.ints()),
            *final(self) == *final(out),
    {
        let rhs_slice = rhs.as_slice();
        let n: usize = rhs_slice.len();
        let ghost before = self@;
        let ghost want = self@.ints().minus(rhs@.ints());
        let mut i: usize = 0;
        while i < n
            invariant
                rhs_slice@ == rhs@.cells,
                n == rhs_slice@.len(),
                before.wf(),
                self@.same_shape(before),
                self@.cells.len() == n,
                want == before.ints().minus(rhs@.ints()),
                want.cells.len() == n,
                want.fits::<T>(),
                i <= n,
                forall|k: int| 0 <= k < i ==> (#[trigger] self@.cells[k]).val() == want.cells[k],
                forall|k: int| i <= k < n ==> #[trigger] self@.cells[k] == before.cells[k],
            decreases n - i,
        {
            assert(T::fits(want.cells[i as int]));
            let lhs_val: T = self.as_slice()[i];
            self.put(i, lhs_val.minus(rhs_slice[i]));
            i += 1;
        }
        assert(self@.ints().cells =~= want.cells);
        self
    }

    /// Subtracts `scalar` times `other` from `self` cell by cell, in one
    /// pass over the buffer of `self`.
    pub fn sub_assign_scaled(&mut self, other: &Matrix<T>, scalar: T)
        requires
            old(self).wf(),
            other.wf(),
            old(self)@.same_shape(other@),
            other@.ints().scaled(scalar.val()).fits::<T>(),
            old(self)@.ints().minus(other@.ints().scaled(scalar.val())).fits::<T>(),
        ensures
            final(self).wf(),
            final(self)@.ints() == old(self)@.ints().minus(other@.ints().scaled(scalar.val())),
    {
        let other_slice = other.as_slice();
        let n: usize = other_slice.len();
        let ghost before = self@;
        let ghost scaled = other@.ints().scaled(scalar.val());
        let ghost want = self@.ints().minus(scaled);
        let mut i: usize = 0;
        while i < n
            invariant
                other_slice@ == other@.cells,
                n == other_slice@.len(),
                before.wf(),
                self@.same_shape(before),
                self@.cells.len() == n,
                scaled == other@.ints().scaled(scalar.val()),
                scaled.cells.len() == n,
                scaled.fits::<T>(),
                want == before.ints().minus(scaled),
                want.cells.len() == n,
                want.fits::<T>(),
                i <= n,
                forall|k: int| 0 <= k < i ==> (#[trigger] self@.cells[k]).val() == want.cells[k],
                forall|k: int| i <= k < n ==> #[trigger] self@.cells[k] == before.cells[k],
            decreases n - i,
        {
            assert(T::fits(want.cells[i as int]));
            let lhs_val: T = self.as_slice()[i];
            self.put(i, lhs_val.minus(other_slice[i].times(scalar)));
            i += 1;
        }
        assert(self@.ints().cells =~= want.cells);
    }

    /// The cellwise (Hadamard) product of two matrices of one shape.
    pub fn component_mul(&self, other: &Matrix<T>) -> (out: Matrix<T>)
        requires
            self.wf(),
            other.wf(),
            self@.same_shape(other@),
            self@.ints().hadamard(other@.ints()).fits::<T>(),
        ensures
            out.wf(),
            out@.ints() == self@.ints().hadamard(other@.ints()),
    {
        let lhs_slice = self.as_slice();
        let rhs_slice = other.as_slice();
        let n: usize = lhs_slice.len();
        let ghost want = self@.ints().hadamard(other@.ints());
        let mut result: Vec<T> = Vec::with_capacity(n);
        let mut i: usize = 0;
        while i < n
            invariant
                lhs_slice@ == self@.cells,
                rhs_slice@ == other@.cells,
                n == lhs_slice@.len(),
                n == rhs_slice@.len(),
                want == self@.ints().hadamard(other@.ints()),
                want.cells.len() == n,
                want.fits::<T>(),
                i <= n,
                result@.len() == i,
                forall|k: int| 0 <= k < i ==> (#[trigger] result@[k]).val() == want.cells[k],
            decreases n - i,
        {
            assert(T::fits(want.cells[i as int]));
            result.push(lhs_slice[i].times(rhs_slice[i]));
            i += 1;
        }
        let out = Matrix::new(self.rows(), self.cols(), result).unwrap();
        assert(out@.ints().cells =~= want.cells);
        out
    }

    /// The cellwise product written into the buffer of `self`, which is
    /// handed back.
    pub fn component_mul_inplace(self, other: &Matrix<T>) -> (out: Matrix<T>)
        requires
            self.wf(),
            other.wf(),
            self@.same_shape(other@),
            self@.ints().hadamard(other@.ints()).fits::<T>(),
        ensures
            out.wf(),
            out@.ints() == self@.ints().hadamard(other@.ints()),
    {
        let rhs_slice = other.as_slice();
        let n: usize = rhs_slice.len();
        let ghost before = self@;
        let ghost want = self@.ints().hadamard(other@.ints());
        let mut out = self;
        let mut i: usize = 0;
        while i < n
            invariant
                rhs_slice@ == other@.cells,
                n == rhs_slice@.len(),
                before.wf(),
                out@.same_shape(before),
                out@.cells.len() == n,
                want == before.ints().hadamard(other@.ints()),
                want.cells.len() == n,
                want.fits::<T>(),
                i <= n,
                forall|k: int| 0 <= k < i ==> (#[trigger] out@.cells[k]).val() == want.cells[k],
                forall|k: int| i <= k < n ==> #[trigger] out@.cells[k] == before.cells[k],
            decreases n - i,
        {
            assert(T::fits(want.cells[i as int]));
            let lhs_val: T = out.as_slice()[i];
            out.put(i, lhs_val.times(rhs_slice[i]));
            i += 1;
        }
        assert(out@.ints().cells =~= want.cells);
        out
    }

    /// The sum of all cells, added in buffer order.
    pub fn sum(&self) -> (total: T)
        requires
            self.wf(),
            self@.ints().total_fits::<T>(),
        ensures
            total.val() == self@.ints().total(),
    {
        let slice = self.as_slice();
        let n: usize = slice.len();
        let ghost cells = self@.ints().cells;
        let mut total: T = T::zero_value();
        let mut i: usize = 0;
        while i < n
            invariant
                slice@ == self@.cells,
                n == slice@.len(),
                cells == self@.ints().cells,
                cells.len() == n,
                self@.ints().total_fits::<T>(),
                i <= n,
                total.val() == prefix_sum(cells, i as nat),
            decreases n - i,
        {
            assert(T::fits(prefix_sum(cells, (i + 1) as nat)));
            total = total.plus(slice[i]);
            i += 1;
        }
        total
    }
}

} // verus!
