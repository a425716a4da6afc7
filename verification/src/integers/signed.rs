//! The signed machine integers as matrix elements. Division leaves the
//! representable range in one case, the least value over minus one.

use vstd::prelude::*;
use crate::scalar::{trunc_div, Scalar};

verus! {

/// `num_traits::Zero::zero` for `i8` returns the literal `0`.
pub assume_specification[ <i8 as num_traits::Zero>::zero ]() -> (r: i8)
    ensures
        r == 0,
;

/// `num_traits::One::one` for `i8` returns the literal `1`.
pub assume_specification[ <i8 as num_traits::One>::one ]() -> (r: i8)
    ensures
        r == 1,
;

impl Scalar for i8 {
    open spec fn val(self) -> int {
        self as int
    }

    open spec fn fits(v: int) -> bool {
        i8::MIN <= v <= i8::MAX
    }

    proof fn lemma_identities_fit() {
    }

    proof fn lemma_val_fits(x: Self) {
    }

    proof fn lemma_val_injective(x: Self, y: Self) {
    }

    fn zero_value() -> (r: Self) {
        <i8 as num_traits::Zero>::zero()
    }

    fn one_value() -> (r: Self) {
        <i8 as num_traits::One>::one()
    }

    fn plus(self, rhs: Self) -> (r: Self) {
        self + rhs
    }

    fn minus(self, rhs: Self) -> (r: Self) {
        self - rhs
    }

    fn times(self, rhs: Self) -> (r: Self) {
        self * rhs
    }

    fn quot(self, rhs: Self) -> (r: Self) {
        assert(!(self == i8::MIN && rhs == -1)) by {
            if self == i8::MIN && rhs == -1 {
                assert(trunc_div(self as int, rhs as int) == -(i8::MIN as int));
            }
        }
        self / rhs
    }
}

/// `num_traits::Zero::zero` for `i16` returns the literal `0`.
pub assume_specification[ <i16 as num_traits::Zero>::zero ]() -> (r: i16)
    ensures
        r == 0,
;

/// `num_traits::One::one` for `i16` returns the literal `1`.
pub assume_specification[ <i16 as num_traits::One>::one ]() -> (r: i16)
    ensures
        r == 1,
;

impl Scalar for i16 {
    open spec fn val(self) -> int {
        self as int
    }

    open spec fn fits(v: int) -> bool {
        i16::MIN <= v <= i16::MAX
    }

    proof fn lemma_identities_fit() {
    }

    proof fn lemma_val_fits(x: Self) {
    }

    proof fn lemma_val_injective(x: Self, y: Self) {
    }

    fn zero_value() -> (r: Self) {
        <i16 as num_traits::Zero>::zero()
    }

    fn one_value() -> (r: Self) {
        <i16 as num_traits::One>::one()
    }

    fn plus(self, rhs: Self) -> (r: Self) {
        self + rhs
    }

    fn minus(self, rhs: Self) -> (r: Self) {
        self - rhs
    }

    fn times(self, rhs: Self) -> (r: Self) {
        self * rhs
    }

    fn quot(self, rhs: Self) -> (r: Self) {
        assert(!(self == i16::MIN && rhs == -1)) by {
            if self == i16::MIN && rhs == -1 {
                assert(trunc_div(self as int, rhs as int) == -(i16::MIN as int));
            }
        }
        self / rhs
    }
}

/// `num_traits::Zero::zero` for `i32` returns the literal `0`.
pub assume_specification[ <i32 as num_traits::Zero>::zero ]() -> (r: i32)
    ensures
        r == 0,
;

/// `num_traits::One::one` for `i32` returns the literal `1`.
pub assume_specification[ <i32 as num_traits::One>::one ]() -> (r: i32)
    ensures
        r == 1,
;

impl Scalar for i32 {
    open spec fn val(self) -> int {
        self as int
    }

    open spec fn fits(v: int) -> bool {
        i32::MIN <= v <= i32::MAX
    }

    proof fn lemma_identities_fit() {
    }

    proof fn lemma_val_fits(x: Self) {
    }

    proof fn lemma_val_injective(x: Self, y: Self) {
    }

    fn zero_value() -> (r: Self) {
        <i32 as num_traits::Zero>::zero()
    }

    fn one_value() -> (r: Self) {
        <i32 as num_traits::One>::one()
    }

    fn plus(self, rhs: Self) -> (r: Self) {
        self + rhs
    }

    fn minus(self, rhs: Self) -> (r: Self) {
        self - rhs
    }

    fn times(self, rhs: Self) -> (r: Self) {
        self * rhs
    }

    fn quot(self, rhs: Self) -> (r: Self) {
        assert(!(self == i32::MIN && rhs == -1)) by {
            if self == i32::MIN && rhs == -1 {
                assert(trunc_div(self as int, rhs as int) == -(i32::MIN as int));
            }
        }
        self / rhs
    }
}

/// `num_traits::Zero::zero` for `i64` returns the literal `0`.
pub assume_specification[ <i64 as num_traits::Zero>::zero ]() -> (r: i64)
    ensures
        r == 0,
;

/// `num_traits::One::one` for `i64` returns the literal `1`.
pub assume_specification[ <i64 as num_traits::One>::one ]() -> (r: i64)
    ensures
        r == 1,
;

impl Scalar for i64 {
    open spec fn val(self) -> int {
        self as int
    }

    open spec fn fits(v: int) -> bool {
        i64::MIN <= v <= i64::MAX
    }

    proof fn lemma_identities_fit() {
    }

    proof fn lemma_val_fits(x: Self) {
    }

    proof fn lemma_val_injective(x: Self, y: Self) {
    }

    fn zero_value() -> (r: Self) {
        <i64 as num_traits::Zero>::zero()
    }

    fn one_value() -> (r: Self) {
        <i64 as num_traits::One>::one()
    }

    fn plus(self, rhs: Self) -> (r: Self) {
        self + rhs
    }

    fn minus(self, rhs: Self) -> (r: Self) {
        self - rhs
    }

    fn times(self, rhs: Self) -> (r: Self) {
        self * rhs
    }

    fn quot(self, rhs: Self) -> (r: Self) {
        assert(!(self == i64::MIN && rhs == -1)) by {
            if self == i64::MIN && rhs == -1 {
                assert(trunc_div(self as int, rhs as int) == -(i64::MIN as int));
            }
        }
        self / rhs
    }
}

/// `num_traits::Zero::zero` for `i128` returns the literal `0`.
pub assume_specification[ <i128 as num_traits::Zero>::zero ]() -> (r: i128)
    ensures
        r == 0,
;

/// `num_traits::One::one` for `i128` returns the literal `1`.
pub assume_specification[ <i128 as num_traits::One>::one ]() -> (r: i128)
    ensures
        r == 1,
;

impl Scalar for i128 {
    open spec fn val(self) -> int {
        self as int
    }

    open spec fn fits(v: int) -> bool {
        i128::MIN <= v <= i128::MAX
    }

    proof fn lemma_identities_fit() {
    }

    proof fn lemma_val_fits(x: Self) {
    }

    proof fn lemma_val_injective(x: Self, y: Self) {
    }

    fn zero_value() -> (r: Self) {
        <i128 as num_traits::Zero>::zero()
    }

    fn one_value() -> (r: Self) {
        <i128 as num_traits::One>::one()
    }

    fn plus(self, rhs: Self) -> (r: Self) {
        self + rhs
    }

    fn minus(self, rhs: Self) -> (r: Self) {
        self - rhs
    }

    fn times(self, rhs: Self) -> (r: Self) {
        self * rhs
    }

    fn quot(self, rhs: Self) -> (r: Self) {
        assert(!(self == i128::MIN && rhs == -1)) by {
            if self == i128::MIN && rhs == -1 {
                assert(trunc_div(self as int, rhs as int) == -(i128::MIN as int));
            }
        }
        self / rhs
    }
}

/// `num_traits::Zero::zero` for `isize` returns the literal `0`.
pub assume_specification[ <isize as num_traits::Zero>::zero ]() -> (r: isize)
    ensures
        r == 0,
;

/// `num_traits::One::one` for `isize` returns the literal `1`.
pub assume_specification[ <isize as num_traits::One>::one ]() -> (r: isize)
    ensures
        r == 1,
;

impl Scalar for isize {
    open spec fn val(self) -> int {
        self as int
    }

    open spec fn fits(v: int) -> bool {
        isize::MIN <= v <= isize::MAX
    }

    proof fn lemma_identities_fit() {
    }

    proof fn lemma_val_fits(x: Self) {
    }

    proof fn lemma_val_injective(x: Self, y: Self) {
    }

    fn zero_value() -> (r: Self) {
        <isize as num_traits::Zero>::zero()
    }

    fn one_value() -> (r: Self) {
        <isize as num_traits::One>::one()
    }

    fn plus(self, rhs: Self) -> (r: Self) {
        self + rhs
    }

    fn minus(self, rhs: Self) -> (r: Self) {
        self - rhs
    }

    fn times(self, rhs: Self) -> (r: Self) {
        self * rhs
    }

    fn quot(self, rhs: Self) -> (r: Self) {
        assert(!(self == isize::MIN && rhs == -1)) by {
            if self == isize::MIN && rhs == -1 {
                assert(trunc_div(self as int, rhs as int) == -(isize::MIN as int));
            }
        }
        self / rhs
    }
}

} // verus!
