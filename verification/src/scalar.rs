//! The element types a matrix can compute with.

use vstd::prelude::*;

verus! {

/// The quotient of `a` by `b` rounded toward zero, which is how the machine
/// integers divide.
pub open spec fn trunc_div(a: int, b: int) -> int {
    if a >= 0 {
        a / b
    } else {
        -((-a) / b)
    }
}

/// A numeric element type. Every value stands for a mathematical integer, and
/// each operation computes the exact result whenever that result is
/// representable.
pub trait Scalar: Copy {
    /// The integer this element stands for.
    spec fn val(self) -> int;

    /// Whether the integer `v` is representable by this type.
    spec fn fits(v: int) -> bool;

    /// Both identities are representable.
    proof fn lemma_identities_fit()
        ensures
            Self::fits(0),
            Self::fits(1),
    ;

    /// What an element stands for is representable.
    proof fn lemma_val_fits(x: Self)
        ensures
            Self::fits(x.val()),
    ;

    /// Two elements that stand for the same integer are the same element.
    proof fn lemma_val_injective(x: Self, y: Self)
        requires
            x.val() == y.val(),
        ensures
            x == y,
    ;

    /// The additive identity.
    fn zero_value() -> (r: Self)
        ensures
            r.val() == 0,
    ;

    /// The multiplicative identity.
    fn one_value() -> (r: Self)
        ensures
            r.val() == 1,
    ;

    /// The sum, where it is representable.
    fn plus(self, rhs: Self) -> (r: Self)
        requires
            Self::fits(self.val() + rhs.val()),
        ensures
            r.val() == self.val() + rhs.val(),
    ;

    /// The difference, where it is representable.
    fn minus(self, rhs: Self) -> (r: Self)
        requires
            Self::fits(self.val() - rhs.val()),
        ensures
            r.val() == self.val() - rhs.val(),
    ;

    /// The product, where it is representable.
    fn times(self, rhs: Self) -> (r: Self)
        requires
            Self::fits(self.val() * rhs.val()),
        ensures
            r.val() == self.val() * rhs.val(),
    ;

    /// The quotient rounded toward zero, for a divisor other than zero and
    /// where it is representable.
    fn quot(self, rhs: Self) -> (r: Self)
        requires
            rhs.val() != 0,
            Self::fits(trunc_div(self.val(), rhs.val())),
        ensures
            r.val() == trunc_div(self.val(), rhs.val()),
    ;
}

} // verus!
