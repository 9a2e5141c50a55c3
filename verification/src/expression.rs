//! The expression language.

use vstd::prelude::*;
use crate::fixed_point::FixedPoint;

verus! {

/// An arithmetic expression over numbers of type `S`.
#[derive(Debug, PartialEq)]
pub enum Expression<S> {
    /// The sum of the operands, taken left to right.
    Add(Vec<Expression<S>>),
    /// The product of the operands, taken left to right.
    Multiply(Vec<Expression<S>>),
    /// The first operand minus each of the others, taken left to right.
    Subtract(Vec<Expression<S>>),
    /// The expression bound to a name in the nearest enclosing scope.
    Variable(String),
    /// A literal number.
    Number(S),
    /// A literal two-digit decimal.
    FixedPoint(FixedPoint),
    /// The second expression where the predicate holds, else the third.
    Conditional(Box<Predicate<S>>, Box<Expression<S>>, Box<Expression<S>>),
}

/// A comparison of two expressions.
#[derive(Debug, PartialEq)]
pub enum Predicate<S> {
    /// The left side is strictly above the right side.
    GreaterThan(Expression<S>, Expression<S>),
    /// The left side is strictly below the right side.
    LessThan(Expression<S>, Expression<S>),
    /// Both sides compare equal.
    Equals(Expression<S>, Expression<S>),
}

} // verus!
