//! The arithmetic the network computes with.

use vstd::prelude::*;

verus! {

/// A number type with the operations that inference and training need.
///
/// Each operation is a function of its arguments: the executable method
/// returns exactly what the specification function of the same name says.
/// Nothing else is asked of an implementation. In particular no algebraic law
/// (associativity, distributivity, totality of the order) is assumed, so that
/// rounding and saturating arithmetic are both admissible.
///
/// [`crate::fixed::Fixed`] is a verified implementation. An implementation
/// whose arithmetic is not verified, such as one on floating-point numbers,
/// owes the same promise: what the library proves of the network holds of it
/// as far as each of its methods is the function that its specification
/// function names.
pub trait Scalar: Copy {
    /// The additive identity.
    spec fn zero_spec() -> Self;

    /// The multiplicative identity.
    spec fn one_spec() -> Self;

    /// The value that stands for the count `n`.
    spec fn from_usize_spec(n: usize) -> Self;

    /// `self + rhs`.
    spec fn add_spec(self, rhs: Self) -> Self;

    /// `self - rhs`.
    spec fn sub_spec(self, rhs: Self) -> Self;

    /// `self * rhs`.
    spec fn mul_spec(self, rhs: Self) -> Self;

    /// `self / rhs`.
    spec fn div_spec(self, rhs: Self) -> Self;

    /// `-self`.
    spec fn neg_spec(self) -> Self;

    /// `|self|`.
    spec fn abs_spec(self) -> Self;

    /// The largest whole value that is not above `self`.
    spec fn floor_spec(self) -> Self;

    /// Euler's number raised to `self`.
    spec fn exp_spec(self) -> Self;

    /// Whether `self` is strictly below `rhs`.
    spec fn lt_spec(self, rhs: Self) -> bool;

    fn zero() -> (r: Self)
        ensures
            r == Self::zero_spec(),
    ;

    fn one() -> (r: Self)
        ensures
            r == Self::one_spec(),
    ;

    fn from_usize(n: usize) -> (r: Self)
        ensures
            r == Self::from_usize_spec(n),
    ;

    fn add(self, rhs: Self) -> (r: Self)
        ensures
            r == self.add_spec(rhs),
    ;

    fn sub(self, rhs: Self) -> (r: Self)
        ensures
            r == self.sub_spec(rhs),
    ;

    fn mul(self, rhs: Self) -> (r: Self)
        ensures
            r == self.mul_spec(rhs),
    ;

    fn div(self, rhs: Self) -> (r: Self)
        ensures
            r == self.div_spec(rhs),
    ;

    fn neg(self) -> (r: Self)
        ensures
            r == self.neg_spec(),
    ;

    fn abs(self) -> (r: Self)
        ensures
            r == self.abs_spec(),
    ;

    fn floor(self) -> (r: Self)
        ensures
            r == self.floor_spec(),
    ;

    fn exp(self) -> (r: Self)
        ensures
            r == self.exp_spec(),
    ;

    fn lt(self, rhs: Self) -> (r: bool)
        ensures
            r == self.lt_spec(rhs),
    ;
}

/// The constant two.
pub open spec fn two_spec<S: Scalar>() -> S {
    S::from_usize_spec(2)
}

/// The constant one half, as the quotient of one and two.
pub open spec fn half_spec<S: Scalar>() -> S {
    S::one_spec().div_spec(two_spec::<S>())
}

/// The larger of two values; the first where neither is below the other.
pub open spec fn max_spec<S: Scalar>(a: S, b: S) -> S {
    if a.lt_spec(b) {
        b
    } else {
        a
    }
}

pub fn two<S: Scalar>() -> (r: S)
    ensures
        r == two_spec::<S>(),
{
    S::from_usize(2)
}

pub fn half<S: Scalar>() -> (r: S)
    ensures
        r == half_spec::<S>(),
{
    S::one().div(two::<S>())
}

pub fn max<S: Scalar>(a: S, b: S) -> (r: S)
    ensures
        r == max_spec(a, b),
{
    if a.lt(b) {
        b
    } else {
        a
    }
}

} // verus!
