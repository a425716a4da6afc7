//! The unsigned machine integers as matrix elements.

use vstd::prelude::*;
use crate::scalar::Scalar;

verus! {

/// `num_traits::Zero::zero` for `u8` returns the literal `0`.
pub assume_specification[ <u8 as num_traits::Zero>::zero ]() -> (r: u8)
    ensures
        r == 0,
;

/// `num_traits::One::one` for `u8` returns the literal `1`.
pub assume_specification[ <u8 as num_traits::One>::one ]() -> (r: u8)
    ensures
        r == 1,
;

impl Scalar for u8 {
    open spec fn val(self) -> int {
        self as int
    }

    open spec fn fits(v: int) -> bool {
        u8::MIN <= v <= u8::MAX
    }

    proof fn lemma_identities_fit() {
    }

    proof fn lemma_val_fits(x: Self) {
    }

    proof fn lemma_val_injective(x: Self, y: Self) {
    }

    fn zero_value() -> (r: Self) {
        <u8 as num_traits::Zero>::zero()
    }

    fn one_value() -> (r: Self) {
        <u8 as num_traits::One>::one()
    }

    fn plus(self, rhs: Self) -> (r: Self) {
        self + rhs
    }

    fn minus(self, rhs: Self) -> (r: Self) {
        self - rhs
    }

    fn times(self, rhs: Self) -> (r: Self) {
        self * rhs
    }

    fn quot(self, rhs: Self) -> (r: Self) {
        self / rhs
    }
}

/// `num_traits::Zero::zero` for `u16` returns the literal `0`.
pub assume_specification[ <u16 as num_traits::Zero>::zero ]() -> (r: u16)
    ensures
        r == 0,
;

/// `num_traits::One::one` for `u16` returns the literal `1`.
pub assume_specification[ <u16 as num_traits::One>::one ]() -> (r: u16)
    ensures
        r == 1,
;

impl Scalar for u16 {
    open spec fn val(self) -> int {
        self as int
    }

    open spec fn fits(v: int) -> bool {
        u16::MIN <= v <= u16::MAX
    }

    proof fn lemma_identities_fit() {
    }

    proof fn lemma_val_fits(x: Self) {
    }

    proof fn lemma_val_injective(x: Self, y: Self) {
    }

    fn zero_value() -> (r: Self) {
        <u16 as num_traits::Zero>::zero()
    }

    fn one_value() -> (r: Self) {
        <u16 as num_traits::One>::one()
    }

    fn plus(self, rhs: Self) -> (r: Self) {
        self + rhs
    }

    fn minus(self, rhs: Self) -> (r: Self) {
        self - rhs
    }

    fn times(self, rhs: Self) -> (r: Self) {
        self * rhs
    }

    fn quot(self, rhs: Self) -> (r: Self) {
        self / rhs
    }
}

/// `num_traits::Zero::zero` for `u32` returns the literal `0`.
pub assume_specification[ <u32 as num_traits::Zero>::zero ]() -> (r: u32)
    ensures
        r == 0,
;

/// `num_traits::One::one` for `u32` returns the literal `1`.
pub assume_specification[ <u32 as num_traits::One>::one ]() -> (r: u32)
    ensures
        r == 1,
;

impl Scalar for u32 {
    open spec fn val(self) -> int {
        self as int
    }

    open spec fn fits(v: int) -> bool {
        u32::MIN <= v <= u32::MAX
    }

    proof fn lemma_identities_fit() {
    }

    proof fn lemma_val_fits(x: Self) {
    }

    proof fn lemma_val_injective(x: Self, y: Self) {
    }

    fn zero_value() -> (r: Self) {
        <u32 as num_traits::Zero>::zero()
    }

    fn one_value() -> (r: Self) {
        <u32 as num_traits::One>::one()
    }

    fn plus(self, rhs: Self) -> (r: Self) {
        self + rhs
    }

    fn minus(self, rhs: Self) -> (r: Self) {
        self - rhs
    }

    fn times(self, rhs: Self) -> (r: Self) {
        self * rhs
    }

    fn quot(self, rhs: Self) -> (r: Self) {
        self / rhs
    }
}

/// `num_traits::Zero::zero` for `u64` returns the literal `0`.
pub assume_specification[ <u64 as num_traits::Zero>::zero ]() -> (r: u64)
    ensures
        r == 0,
;

/// `num_traits::One::one` for `u64` returns the literal `1`.
pub assume_specification[ <u64 as num_traits::One>::one ]() -> (r: u64)
    ensures
        r == 1,
;

impl Scalar for u64 {
    open spec fn val(self) -> int {
        self as int
    }

    open spec fn fits(v: int) -> bool {
        u64::MIN <= v <= u64::MAX
    }

    proof fn lemma_identities_fit() {
    }

    proof fn lemma_val_fits(x: Self) {
    }

    proof fn lemma_val_injective(x: Self, y: Self) {
    }

    fn zero_value() -> (r: Self) {
        <u64 as num_traits::Zero>::zero()
    }

    fn one_value() -> (r: Self) {
        <u64 as num_traits::One>::one()
    }

    fn plus(self, rhs: Self) -> (r: Self) {
        self + rhs
    }

    fn minus(self, rhs: Self) -> (r: Self) {
        self - rhs
    }

    fn times(self, rhs: Self) -> (r: Self) {
        self * rhs
    }

    fn quot(self, rhs: Self) -> (r: Self) {
        self / rhs
    }
}

/// `num_traits::Zero::zero` for `u128` returns the literal `0`.
pub assume_specification[ <u128 as num_traits::Zero>::zero ]() -> (r: u128)
    ensures
        r == 0,
;

/// `num_traits::One::one` for `u128` returns the literal `1`.
pub assume_specification[ <u128 as num_traits::One>::one ]() -> (r: u128)
    ensures
        r == 1,
;

impl Scalar for u128 {
    open spec fn val(self) -> int {
        self as int
    }

    open spec fn fits(v: int) -> bool {
        u128::MIN <= v <= u128::MAX
    }

    proof fn lemma_identities_fit() {
    }

    proof fn lemma_val_fits(x: Self) {
    }

    proof fn lemma_val_injective(x: Self, y: Self) {
    }

    fn zero_value() -> (r: Self) {
        <u128 as num_traits::Zero>::zero()
    }

    fn one_value() -> (r: Self) {
        <u128 as num_traits::One>::one()
    }

    fn plus(self, rhs: Self) -> (r: Self) {
        self + rhs
    }

    fn minus(self, rhs: Self) -> (r: Self) {
        self - rhs
    }

    fn times(self, rhs: Self) -> (r: Self) {
        self * rhs
    }

    fn quot(self, rhs: Self) -> (r: Self) {
        self / rhs
    }
}

/// `num_traits::Zero::zero` for `usize` returns the literal `0`.
pub assume_specification[ <usize as num_traits::Zero>::zero ]() -> (r: usize)
    ensures
        r == 0,
;

/// `num_traits::One::one` for `usize` returns the literal `1`.
pub assume_specification[ <usize as num_traits::One>::one ]() -> (r: usize)
    ensures
        r == 1,
;

impl Scalar for usize {
    open spec fn val(self) -> int {
        self as int
    }

    open spec fn fits(v: int) -> bool {
        usize::MIN <= v <= usize::MAX
    }

    proof fn lemma_identities_fit() {
    }

    proof fn lemma_val_fits(x: Self) {
    }

    proof fn lemma_val_injective(x: Self, y: Self) {
    }

    fn zero_value() -> (r: Self) {
        <usize as num_traits::Zero>::zero()
    }

    fn one_value() -> (r: Self) {
        <usize as num_traits::One>::one()
    }

    fn plus(self, rhs: Self) -> (r: Self) {
        self + rhs
    }

    fn minus(self, rhs: Self) -> (r: Self) {
        self - rhs
    }

    fn times(self, rhs: Self) -> (r: Self) {
        self * rhs
    }

    fn quot(self, rhs: Self) -> (r: Self) {
        self / rhs
    }
}

} // verus!
