//! Scalar multiplication with the scalar on the left, for each integer
//! element type: `k * &m` is `&m * k`.

use vstd::prelude::*;
use vstd::std_specs::ops::MulSpecImpl;
use core::ops::Mul;
use crate::matrix::Matrix;
use crate::scalar::Scalar;

verus! {

impl MulSpecImpl<&Matrix<i8>> for i8 {
    open spec fn obeys_mul_spec() -> bool {
        false
    }

    /// Every scaled cell is representable.
    open spec fn mul_req(self, rhs: &Matrix<i8>) -> bool {
        &&& rhs.wf()
        &&& rhs@.ints().scaled(self.val()).fits::<i8>()
    }

    open spec fn mul_spec(self, rhs: &Matrix<i8>) -> Matrix<i8> {
        arbitrary()
    }
}

impl Mul<&Matrix<i8>> for i8 {
    type Output = Matrix<i8>;

    /// Every cell of `rhs` multiplied by the scalar `self`.
    fn mul(self, rhs: &Matrix<i8>) -> (out: Matrix<i8>)
        ensures
            out.wf(),
            out@.ints() == rhs@.ints().scaled(self.val()),
    {
        rhs.mul(self)
    }
}

impl MulSpecImpl<&Matrix<i16>> for i16 {
    open spec fn obeys_mul_spec() -> bool {
        false
    }

    /// Every scaled cell is representable.
    open spec fn mul_req(self, rhs: &Matrix<i16>) -> bool {
        &&& rhs.wf()
        &&& rhs@.ints().scaled(self.val()).fits::<i16>()
    }

    open spec fn mul_spec(self, rhs: &Matrix<i16>) -> Matrix<i16> {
        arbitrary()
    }
}

impl Mul<&Matrix<i16>> for i16 {
    type Output = Matrix<i16>;

    /// Every cell of `rhs` multiplied by the scalar `self`.
    fn mul(self, rhs: &Matrix<i16>) -> (out: Matrix<i16>)
        ensures
            out.wf(),
            out@.ints() == rhs@.ints().scaled(self.val()),
    {
        rhs.mul(self)
    }
}

impl MulSpecImpl<&Matrix<i32>> for i32 {
    open spec fn obeys_mul_spec() -> bool {
        false
    }

    /// Every scaled cell is representable.
    open spec fn mul_req(self, rhs: &Matrix<i32>) -> bool {
        &&& rhs.wf()
        &&& rhs@.ints().scaled(self.val()).fits::<i32>()
    }

    open spec fn mul_spec(self, rhs: &Matrix<i32>) -> Matrix<i32> {
        arbitrary()
    }
}

impl Mul<&Matrix<i32>> for i32 {
    type Output = Matrix<i32>;

    /// Every cell of `rhs` multiplied by the scalar `self`.
    fn mul(self, rhs: &Matrix<i32>) -> (out: Matrix<i32>)
        ensures
            out.wf(),
            out@.ints() == rhs@.ints().scaled(self.val()),
    {
        rhs.mul(self)
    }
}

impl MulSpecImpl<&Matrix<i64>> for i64 {
    open spec fn obeys_mul_spec() -> bool {
        false
    }

    /// Every scaled cell is representable.
    open spec fn mul_req(self, rhs: &Matrix<i64>) -> bool {
        &&& rhs.wf()
        &&& rhs@.ints().scaled(self.val()).fits::<i64>()
    }

    open spec fn mul_spec(self, rhs: &Matrix<i64>) -> Matrix<i64> {
        arbitrary()
    }
}

impl Mul<&Matrix<i64>> for i64 {
    type Output = Matrix<i64>;

    /// Every cell of `rhs` multiplied by the scalar `self`.
    fn mul(self, rhs: &Matrix<i64>) -> (out: Matrix<i64>)
        ensures
            out.wf(),
            out@.ints() == rhs@.ints().scaled(self.val()),
    {
        rhs.mul(self)
    }
}

impl MulSpecImpl<&Matrix<i128>> for i128 {
    open spec fn obeys_mul_spec() -> bool {
        false
    }

    /// Every scaled cell is representable.
    open spec fn mul_req(self, rhs: &Matrix<i128>) -> bool {
        &&& rhs.wf()
        &&& rhs@.ints().scaled(self.val()).fits::<i128>()
    }

    open spec fn mul_spec(self, rhs: &Matrix<i128>) -> Matrix<i128> {
        arbitrary()
    }
}

impl Mul<&Matrix<i128>> for i128 {
    type Output = Matrix<i128>;

    /// Every cell of `rhs` multiplied by the scalar `self`.
    fn mul(self, rhs: &Matrix<i128>) -> (out: Matrix<i128>)
        ensures
            out.wf(),
            out@.ints() == rhs@.ints().scaled(self.val()),
    {
        rhs.mul(self)
    }
}

impl MulSpecImpl<&Matrix<isize>> for isize {
    open spec fn obeys_mul_spec() -> bool {
        false
    }

    /// Every scaled cell is representable.
    open spec fn mul_req(self, rhs: &Matrix<isize>) -> bool {
        &&& rhs.wf()
        &&& rhs@.ints().scaled(self.val()).fits::<isize>()
    }

    open spec fn mul_spec(self, rhs: &Matrix<isize>) -> Matrix<isize> {
        arbitrary()
    }
}

impl Mul<&Matrix<isize>> for isize {
    type Output = Matrix<isize>;

    /// Every cell of `rhs` multiplied by the scalar `self`.
    fn mul(self, rhs: &Matrix<isize>) -> (out: Matrix<isize>)
        ensures
            out.wf(),
            out@.ints() == rhs@.ints().scaled(self.val()),
    {
        rhs.mul(self)
    }
}

impl MulSpecImpl<&Matrix<u8>> for u8 {
    open spec fn obeys_mul_spec() -> bool {
        false
    }

    /// Every scaled cell is representable.
    open spec fn mul_req(self, rhs: &Matrix<u8>) -> bool {
        &&& rhs.wf()
        &&& rhs@.ints().scaled(self.val()).fits::<u8>()
    }

    open spec fn mul_spec(self, rhs: &Matrix<u8>) -> Matrix<u8> {
        arbitrary()
    }
}

impl Mul<&Matrix<u8>> for u8 {
    type Output = Matrix<u8>;

    /// Every cell of `rhs` multiplied by the scalar `self`.
    fn mul(self, rhs: &Matrix<u8>) -> (out: Matrix<u8>)
        ensures
            out.wf(),
            out@.ints() == rhs@.ints().scaled(self.val()),
    {
        rhs.mul(self)
    }
}

impl MulSpecImpl<&Matrix<u16>> for u16 {
    open spec fn obeys_mul_spec() -> bool {
        false
    }

    /// Every scaled cell is representable.
    open spec fn mul_req(self, rhs: &Matrix<u16>) -> bool {
        &&& rhs.wf()
        &&& rhs@.ints().scaled(self.val()).fits::<u16>()
    }

    open spec fn mul_spec(self, rhs: &Matrix<u16>) -> Matrix<u16> {
        arbitrary()
    }
}

impl Mul<&Matrix<u16>> for u16 {
    type Output = Matrix<u16>;

    /// Every cell of `rhs` multiplied by the scalar `self`.
    fn mul(self, rhs: &Matrix<u16>) -> (out: Matrix<u16>)
        ensures
            out.wf(),
            out@.ints() == rhs@.ints().scaled(self.val()),
    {
        rhs.mul(self)
    }
}

impl MulSpecImpl<&Matrix<u32>> for u32 {
    open spec fn obeys_mul_spec() -> bool {
        false
    }

    /// Every scaled cell is representable.
    open spec fn mul_req(self, rhs: &Matrix<u32>) -> bool {
        &&& rhs.wf()
        &&& rhs@.ints().scaled(self.val()).fits::<u32>()
    }

    open spec fn mul_spec(self, rhs: &Matrix<u32>) -> Matrix<u32> {
        arbitrary()
    }
}

impl Mul<&Matrix<u32>> for u32 {
    type Output = Matrix<u32>;

    /// Every cell of `rhs` multiplied by the scalar `self`.
    fn mul(self, rhs: &Matrix<u32>) -> (out: Matrix<u32>)
        ensures
            out.wf(),
            out@.ints() == rhs@.ints().scaled(self.val()),
    {
        rhs.mul(self)
    }
}

impl MulSpecImpl<&Matrix<u64>> for u64 {
    open spec fn obeys_mul_spec() -> bool {
        false
    }

    /// Every scaled cell is representable.
    open spec fn mul_req(self, rhs: &Matrix<u64>) -> bool {
        &&& rhs.wf()
        &&& rhs@.ints().scaled(self.val()).fits::<u64>()
    }

    open spec fn mul_spec(self, rhs: &Matrix<u64>) -> Matrix<u64> {
        arbitrary()
    }
}

impl Mul<&Matrix<u64>> for u64 {
    type Output = Matrix<u64>;

    /// Every cell of `rhs` multiplied by the scalar `self`.
    fn mul(self, rhs: &Matrix<u64>) -> (out: Matrix<u64>)
        ensures
            out.wf(),
            out@.ints() == rhs@.ints().scaled(self.val()),
    {
        rhs.mul(self)
    }
}

impl MulSpecImpl<&Matrix<u128>> for u128 {
    open spec fn obeys_mul_spec() -> bool {
        false
    }

    /// Every scaled cell is representable.
    open spec fn mul_req(self, rhs: &Matrix<u128>) -> bool {
        &&& rhs.wf()
        &&& rhs@.ints().scaled(self.val()).fits::<u128>()
    }

    open spec fn mul_spec(self, rhs: &Matrix<u128>) -> Matrix<u128> {
        arbitrary()
    }
}

impl Mul<&Matrix<u128>> for u128 {
    type Output = Matrix<u128>;

    /// Every cell of `rhs` multiplied by the scalar `self`.
    fn mul(self, rhs: &Matrix<u128>) -> (out: Matrix<u128>)
        ensures
            out.wf(),
            out@.ints() == rhs@.ints().scaled(self.val()),
    {
        rhs.mul(self)
    }
}

impl MulSpecImpl<&Matrix<usize>> for usize {
    open spec fn obeys_mul_spec() -> bool {
        false
    }

    /// Every scaled cell is representable.
    open spec fn mul_req(self, rhs: &Matrix<usize>) -> bool {
        &&& rhs.wf()
        &&& rhs@.ints().scaled(self.val()).fits::<usize>()
    }

    open spec fn mul_spec(self, rhs: &Matrix<usize>) -> Matrix<usize> {
        arbitrary()
    }
}

impl Mul<&Matrix<usize>> for usize {
    type Output = Matrix<usize>;

    /// Every cell of `rhs` multiplied by the scalar `self`.
    fn mul(self, rhs: &Matrix<usize>) -> (out: Matrix<usize>)
        ensures
            out.wf(),
            out@.ints() == rhs@.ints().scaled(self.val()),
    {
        rhs.mul(self)
    }
}

} // verus!
