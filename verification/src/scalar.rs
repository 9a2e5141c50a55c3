//! The number domain an expression is evaluated over.

use vstd::prelude::*;

verus! {

/// A domain of numbers with the operations the evaluator needs.
///
/// Every operation comes in two forms: a specification function that says
/// what the operation means, and an executable method that must return
/// exactly that. The evaluator is proved correct with respect to the
/// specification functions, for every implementation.
///
/// The specification functions have placeholder bodies so that an
/// implementation written outside of verified code only has to supply the
/// executable methods. A verified implementation overrides them with the
/// meaning of its operations; the placeholders satisfy no contract.
pub trait Scalar: Sized + Copy {
    /// The additive identity, the seed of a sum.
    open spec fn zero_spec() -> Self {
        arbitrary()
    }

    /// The multiplicative identity, the seed of a product.
    open spec fn one_spec() -> Self {
        arbitrary()
    }

    /// The sum of `self` and `rhs`.
    open spec fn plus_spec(self, rhs: Self) -> Self {
        arbitrary()
    }

    /// The difference of `self` and `rhs`.
    open spec fn minus_spec(self, rhs: Self) -> Self {
        arbitrary()
    }

    /// The product of `self` and `rhs`.
    open spec fn times_spec(self, rhs: Self) -> Self {
        arbitrary()
    }

    /// Whether `self` and `rhs` compare equal.
    open spec fn equals_spec(self, rhs: Self) -> bool {
        arbitrary()
    }

    /// Whether `self` is strictly below `rhs`.
    open spec fn less_than_spec(self, rhs: Self) -> bool {
        arbitrary()
    }

    /// The number `whole + hundredths / 100`.
    open spec fn from_fixed_spec(whole: int, hundredths: int) -> Self {
        arbitrary()
    }

    /// The notation of the number, as it is printed.
    open spec fn text_spec(self) -> Seq<char> {
        arbitrary()
    }

    fn zero() -> (value: Self)
        ensures
            value == Self::zero_spec(),
    ;

    fn one() -> (value: Self)
        ensures
            value == Self::one_spec(),
    ;

    fn plus(&self, rhs: &Self) -> (value: Self)
        ensures
            value == self.plus_spec(*rhs),
    ;

    fn minus(&self, rhs: &Self) -> (value: Self)
        ensures
            value == self.minus_spec(*rhs),
    ;

    fn times(&self, rhs: &Self) -> (value: Self)
        ensures
            value == self.times_spec(*rhs),
    ;

    fn equals(&self, rhs: &Self) -> (same: bool)
        ensures
            same == self.equals_spec(*rhs),
    ;

    fn less_than(&self, rhs: &Self) -> (below: bool)
        ensures
            below == self.less_than_spec(*rhs),
    ;

    fn from_fixed(whole: i64, hundredths: i32) -> (value: Self)
        ensures
            value == Self::from_fixed_spec(whole as int, hundredths as int),
    ;

    fn text(&self) -> (text: String)
        ensures
            text@ == self.text_spec(),
    ;
}

} // verus!
