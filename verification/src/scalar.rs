//! The number type the engine computes with.
//!
//! Every quantity of a simulation (a coordinate, a mass, a time step) is a
//! [`Scalar`]. The engine never looks inside one: it only combines scalars
//! through the methods of this trait, and each contract of the engine names the
//! result of such a combination through the trait's specification functions.
//! A contract therefore says *which expression* over the operands was
//! evaluated, operation by operation and in which order, and leaves the meaning
//! of each operation to the implementation.

use vstd::prelude::*;

verus! {

/// A number with the arithmetic the engine needs.
///
/// Each method computes the specification function named in its `ensures`.
/// An implementation that is verified defines those functions; [`crate::fixed::Fixed`]
/// does. An implementation that is not verified leaves them as they are
/// declared here: one function of the operands for each operation (the leading
/// number tells the operations apart), of which nothing further is known. What
/// the implementer of such a type owes is that every method is a function of
/// its operands: equal operands give equal results, and no call panics.
pub trait Scalar: Copy {
    /// The scalar that stands for the integer `n`.
    open spec fn of_int(n: i32) -> Self {
        arbitrary::<spec_fn(i32) -> Self>()(n)
    }

    /// `self + rhs`.
    open spec fn sum(self, rhs: Self) -> Self {
        arbitrary::<spec_fn(int, Self, Self) -> Self>()(0, self, rhs)
    }

    /// `self - rhs`.
    open spec fn difference(self, rhs: Self) -> Self {
        arbitrary::<spec_fn(int, Self, Self) -> Self>()(1, self, rhs)
    }

    /// `self * rhs`.
    open spec fn product(self, rhs: Self) -> Self {
        arbitrary::<spec_fn(int, Self, Self) -> Self>()(2, self, rhs)
    }

    /// `self / rhs`.
    open spec fn quotient(self, rhs: Self) -> Self {
        arbitrary::<spec_fn(int, Self, Self) -> Self>()(3, self, rhs)
    }

    /// `-self`.
    open spec fn negation(self) -> Self {
        arbitrary::<spec_fn(int, Self) -> Self>()(0, self)
    }

    /// The square root of `self`.
    open spec fn square_root(self) -> Self {
        arbitrary::<spec_fn(int, Self) -> Self>()(1, self)
    }

    /// `self < rhs`.
    open spec fn below(self, rhs: Self) -> bool {
        arbitrary::<spec_fn(int, Self, Self) -> bool>()(0, self, rhs)
    }

    /// `self <= rhs`.
    open spec fn at_most(self, rhs: Self) -> bool {
        arbitrary::<spec_fn(int, Self, Self) -> bool>()(1, self, rhs)
    }

    fn from_int(n: i32) -> (out: Self)
        ensures
            out == Self::of_int(n),
    ;

    fn plus(self, rhs: Self) -> (out: Self)
        ensures
            out == self.sum(rhs),
    ;

    fn minus(self, rhs: Self) -> (out: Self)
        ensures
            out == self.difference(rhs),
    ;

    fn times(self, rhs: Self) -> (out: Self)
        ensures
            out == self.product(rhs),
    ;

    fn over(self, rhs: Self) -> (out: Self)
        ensures
            out == self.quotient(rhs),
    ;

    fn negated(self) -> (out: Self)
        ensures
            out == self.negation(),
    ;

    fn root(self) -> (out: Self)
        ensures
            out == self.square_root(),
    ;

    fn lt(self, rhs: Self) -> (out: bool)
        ensures
            out == self.below(rhs),
    ;

    fn le(self, rhs: Self) -> (out: bool)
        ensures
            out == self.at_most(rhs),
    ;
}

/// The scalar zero.
pub open spec fn zero<S: Scalar>() -> S {
    S::of_int(0)
}

/// The fraction `n / d` of two integers, as the engine forms it: the scalar of
/// `n` divided by the scalar of `d`.
pub open spec fn ratio<S: Scalar>(n: i32, d: i32) -> S {
    S::of_int(n).quotient(S::of_int(d))
}

/// Computes [`ratio`].
pub fn fraction<S: Scalar>(n: i32, d: i32) -> (out: S)
    ensures
        out == ratio::<S>(n, d),
{
    S::from_int(n).over(S::from_int(d))
}

/// `x` multiplied by itself.
pub open spec fn square<S: Scalar>(x: S) -> S {
    x.product(x)
}

/// The sum of the squares of the first `n` components of `d`, added up in order
/// of their index and starting from zero.
pub open spec fn sum_of_squares<S: Scalar>(d: Seq<S>, n: nat) -> S
    decreases n,
{
    if n == 0 {
        zero::<S>()
    } else {
        sum_of_squares(d, (n - 1) as nat).sum(square(d[n - 1]))
    }
}

/// The Euclidean length of the vector `d`.
pub open spec fn norm<S: Scalar>(d: Seq<S>) -> S {
    sum_of_squares(d, d.len()).square_root()
}

/// The component-wise difference `a - b` of two vectors of the length of `a`.
pub open spec fn offset<S: Scalar>(a: Seq<S>, b: Seq<S>) -> Seq<S> {
    Seq::new(a.len(), |i: int| a[i].difference(b[i]))
}

/// Whether the arithmetic of `S` is exact: whether `value` reads every scalar
/// as a real number in such a way that each operation of `S` is the operation
/// of the same name on the real numbers, division by zero left aside.
///
/// A number of finite precision is exact only as far as its results need no
/// rounding. What is proved of the schemes under this condition is what they
/// do when read as formulas of real numbers.
pub open spec fn exact<S: Scalar>(value: spec_fn(S) -> real) -> bool {
    &&& forall|n: i32| value(#[trigger] S::of_int(n)) == n as real
    &&& forall|x: S, y: S| value(#[trigger] x.sum(y)) == value(x) + value(y)
    &&& forall|x: S, y: S| value(#[trigger] x.difference(y)) == value(x) - value(y)
    &&& forall|x: S, y: S| value(#[trigger] x.product(y)) == value(x) * value(y)
    &&& forall|x: S, y: S|
        value(y) != 0real ==> value(#[trigger] x.quotient(y)) == value(x) / value(y)
    &&& forall|x: S| value(#[trigger] x.negation()) == -value(x)
}

/// Whether zero is to the arithmetic of `S` what it is to that of numbers:
/// whether adding or subtracting zero changes nothing, a product with zero and
/// a quotient of zero are zero, and a scalar less itself is zero.
///
/// This asks for no exactness of any result that is not zero, so that
/// arithmetic that rounds can meet it: that of [`crate::fixed::Fixed`] does.
pub open spec fn sound_at_zero<S: Scalar>() -> bool {
    &&& forall|x: S| #[trigger] x.sum(zero::<S>()) == x
    &&& forall|x: S| #[trigger] x.difference(zero::<S>()) == x
    &&& forall|x: S| #[trigger] x.product(zero::<S>()) == zero::<S>()
    &&& forall|x: S| #[trigger] zero::<S>().product(x) == zero::<S>()
    &&& forall|x: S| #[trigger] zero::<S>().quotient(x) == zero::<S>()
    &&& forall|x: S| #[trigger] x.difference(x) == zero::<S>()
}

} // verus!
