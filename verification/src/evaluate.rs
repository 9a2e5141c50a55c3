//! The evaluator: what an expression is worth in an environment.

use vstd::prelude::*;
use crate::environment::Environment;
use crate::error::EvalError;
use crate::expression::{Expression, Predicate};
use crate::fixed_point::FixedPoint;
use crate::scalar::Scalar;

verus! {

/// How deep [`evaluate`] descends before it gives up.
pub const MAX_DEPTH: usize = 256;

/// The operation that folds the operands of an n-ary expression.
#[derive(Clone, Copy, Debug, PartialEq, Eq, Structural)]
pub enum Operator {
    Plus,
    Minus,
    Times,
}

impl Operator {
    /// The accumulated value `total` combined with the next operand's value.
    pub open spec fn apply<S: Scalar>(self, total: S, next: S) -> S {
        match self {
            Operator::Plus => total.plus_spec(next),
            Operator::Minus => total.minus_spec(next),
            Operator::Times => total.times_spec(next),
        }
    }
}

impl<S: Scalar> Expression<S> {
    /// The value of the expression in the chain `scopes`, or the reason it
    /// has none, when evaluation may nest at most `depth` levels. Evaluating
    /// an expression takes one level; its operands, the branches and sides
    /// of a conditional, and the expression bound to a variable are
    /// evaluated one level further down, all in the same chain.
    pub open spec fn value(self, scopes: Seq<Map<Seq<char>, Expression<S>>>, depth: nat) -> Result<
        S,
        EvalError,
    >
        decreases depth, 0nat, 0nat,
    {
        if depth == 0 {
            Err(EvalError::DepthLimitExceeded)
        } else {
            let inner = (depth - 1) as nat;
            match self {
                Expression::Number(value) => Ok(value),
                Expression::FixedPoint(fixed_point) => Ok(
                    S::from_fixed_spec(fixed_point.whole(), fixed_point.hundredths()),
                ),
                Expression::Add(operands) => Self::fold(
                    Operator::Plus,
                    operands@,
                    scopes,
                    inner,
                    S::zero_spec(),
                ),
                Expression::Multiply(operands) => Self::fold(
                    Operator::Times,
                    operands@,
                    scopes,
                    inner,
                    S::one_spec(),
                ),
                Expression::Subtract(operands) => if operands@.len() == 0 {
                    Ok(S::zero_spec())
                } else {
                    match operands@[0].value(scopes, inner) {
                        Ok(seed) => Self::fold(
                            Operator::Minus,
                            operands@.drop_first(),
                            scopes,
                            inner,
                            seed,
                        ),
                        Err(error) => Err(error),
                    }
                },
                Expression::Variable(name) => match Environment::<S>::resolve(scopes, name@) {
                    Some(bound) => bound.value(scopes, inner),
                    None => Err(EvalError::UnboundVariable(name)),
                },
                Expression::Conditional(predicate, consequent, alternate) => match predicate.holds(
                    scopes,
                    inner,
                ) {
                    Ok(true) => consequent.value(scopes, inner),
                    Ok(false) => alternate.value(scopes, inner),
                    Err(error) => Err(error),
                },
            }
        }
    }

    /// The left fold of `operator` over the values of `operands`, starting
    /// from `total`. The operands are evaluated in order, each within `depth`
    /// levels, and the first one without a value ends the fold with its
    /// error.
    pub open spec fn fold(
        operator: Operator,
        operands: Seq<Expression<S>>,
        scopes: Seq<Map<Seq<char>, Expression<S>>>,
        depth: nat,
        total: S,
    ) -> Result<S, EvalError>
        decreases depth, 1nat, operands.len(),
    {
        if operands.len() == 0 {
            Ok(total)
        } else {
            match operands[0].value(scopes, depth) {
                Ok(next) => Self::fold(
                    operator,
                    operands.drop_first(),
                    scopes,
                    depth,
                    operator.apply(total, next),
                ),
                Err(error) => Err(error),
            }
        }
    }
}

impl<S: Scalar> Predicate<S> {
    /// The left side of the comparison.
    pub open spec fn left(self) -> Expression<S> {
        match self {
            Predicate::GreaterThan(left, _) => left,
            Predicate::LessThan(left, _) => left,
            Predicate::Equals(left, _) => left,
        }
    }

    /// The right side of the comparison.
    pub open spec fn right(self) -> Expression<S> {
        match self {
            Predicate::GreaterThan(_, right) => right,
            Predicate::LessThan(_, right) => right,
            Predicate::Equals(_, right) => right,
        }
    }

    /// Whether the comparison holds of the values `left` and `right` of its
    /// two sides. `left` is above `right` exactly where `right` is below
    /// `left`.
    pub open spec fn compare(self, left: S, right: S) -> bool {
        match self {
            Predicate::GreaterThan(_, _) => right.less_than_spec(left),
            Predicate::LessThan(_, _) => left.less_than_spec(right),
            Predicate::Equals(_, _) => left.equals_spec(right),
        }
    }

    /// Whether the predicate holds in the chain `scopes`, or the reason that
    /// cannot be told. The left side is evaluated first, then the right, each
    /// within `depth` levels.
    pub open spec fn holds(self, scopes: Seq<Map<Seq<char>, Expression<S>>>, depth: nat) -> Result<
        bool,
        EvalError,
    >
        decreases depth, 1nat, 0nat,
    {
        match self.left().value(scopes, depth) {
            Ok(left) => match self.right().value(scopes, depth) {
                Ok(right) => Ok(self.compare(left, right)),
                Err(error) => Err(error),
            },
            Err(error) => Err(error),
        }
    }
}

/// Evaluates `expression` in `environment`, descending at most
/// [`MAX_DEPTH`] levels.
pub fn evaluate<S: Scalar>(expression: &Expression<S>, environment: &Environment<S>) -> (result:
    Result<S, EvalError>)
    ensures
        result == expression.value(environment@, MAX_DEPTH as nat),
{
    evaluate_within(expression, environment, MAX_DEPTH)
}

/// Evaluates `expression` in `environment`, descending at most `depth`
/// levels.
pub fn evaluate_within<S: Scalar>(
    expression: &Expression<S>,
    environment: &Environment<S>,
    depth: usize,
) -> (result: Result<S, EvalError>)
    ensures
        result == expression.value(environment@, depth as nat),
    decreases depth, 0nat,
{
    if depth == 0 {
        return Err(EvalError::DepthLimitExceeded);
    }
    let inner: usize = depth - 1;
    match expression {
        Expression::Number(value) => Ok(*value),
        Expression::FixedPoint(fixed_point) => Ok(evaluate_fixed_point(fixed_point)),
        Expression::Add(operands) => evaluate_addition(operands, environment, inner),
        Expression::Multiply(operands) => evaluate_multiplication(operands, environment, inner),
        Expression::Subtract(operands) => evaluate_subtraction(operands, environment, inner),
        Expression::Variable(name) => match environment.value_for_key(name) {
            Ok(bound) => evaluate_within(bound, environment, inner),
            Err(error) => Err(error),
        },
        Expression::Conditional(predicate, consequent, alternate) => evaluate_conditional(
            predicate,
            consequent,
            alternate,
            environment,
            inner,
        ),
    }
}

/// The number a fixed-point literal stands for: its hundredths carry into
/// the integer part, and the two parts are handed to the number domain.
pub fn evaluate_fixed_point<S: Scalar>(fixed_point: &FixedPoint) -> (value: S)
    ensures
        value == S::from_fixed_spec(fixed_point.whole(), fixed_point.hundredths()),
{
    let before: i64 = fixed_point.before_decimal() as i64;
    let after: i32 = fixed_point.after_decimal();
    if after >= 100 {
        S::from_fixed(before + (after / 100) as i64, after % 100)
    } else {
        S::from_fixed(before, after)
    }
}

/// Folds `operator` over the values of the operands from index `start` on,
/// beginning with `seed`.
pub fn fold_operands<S: Scalar>(
    operator: Operator,
    operands: &Vec<Expression<S>>,
    start: usize,
    environment: &Environment<S>,
    depth: usize,
    seed: S,
) -> (result: Result<S, EvalError>)
    requires
        start <= operands@.len(),
    ensures
        result == Expression::fold(
            operator,
            operands@.skip(start as int),
            environment@,
            depth as nat,
            seed,
        ),
    decreases depth, 1nat,
{
    let mut total: S = seed;
    let mut index: usize = start;
    while index < operands.len()
        invariant
            start <= index <= operands@.len(),
            Expression::fold(
                operator,
                operands@.skip(start as int),
                environment@,
                depth as nat,
                seed,
            ) == Expression::fold(
                operator,
                operands@.skip(index as int),
                environment@,
                depth as nat,
                total,
            ),
        decreases operands@.len() - index,
    {
        assert(operands@.skip(index as int)[0] == operands@[index as int]);
        assert(operands@.skip(index as int).drop_first() =~= operands@.skip(index + 1));
        match evaluate_within(&operands[index], environment, depth) {
            Ok(next) => {
                total = match operator {
                    Operator::Plus => total.plus(&next),
                    Operator::Minus => total.minus(&next),
                    Operator::Times => total.times(&next),
                };
            },
            Err(error) => {
                return Err(error);
            },
        }
        index = index + 1;
    }
    Ok(total)
}

/// The sum of the operands, from zero.
pub fn evaluate_addition<S: Scalar>(
    operands: &Vec<Expression<S>>,
    environment: &Environment<S>,
    depth: usize,
) -> (result: Result<S, EvalError>)
    ensures
        result == Expression::fold(
            Operator::Plus,
            operands@,
            environment@,
            depth as nat,
            S::zero_spec(),
        ),
    decreases depth, 2nat,
{
    assert(operands@.skip(0) =~= operands@);
    fold_operands(Operator::Plus, operands, 0, environment, depth, S::zero())
}

/// The product of the operands, from one.
pub fn evaluate_multiplication<S: Scalar>(
    operands: &Vec<Expression<S>>,
    environment: &Environment<S>,
    depth: usize,
) -> (result: Result<S, EvalError>)
    ensures
        result == Expression::fold(
            Operator::Times,
            operands@,
            environment@,
            depth as nat,
            S::one_spec(),
        ),
    decreases depth, 2nat,
{
    assert(operands@.skip(0) =~= operands@);
    fold_operands(Operator::Times, operands, 0, environment, depth, S::one())
}

/// The value of the first operand less the values of the others; zero where
/// there is no operand.
pub fn evaluate_subtraction<S: Scalar>(
    operands: &Vec<Expression<S>>,
    environment: &Environment<S>,
    depth: usize,
) -> (result: Result<S, EvalError>)
    ensures
        result == if operands@.len() == 0 {
            Ok::<S, EvalError>(S::zero_spec())
        } else {
            match operands@[0].value(environment@, depth as nat) {
                Ok(seed) => Expression::fold(
                    Operator::Minus,
                    operands@.drop_first(),
                    environment@,
                    depth as nat,
                    seed,
                ),
                Err(error) => Err(error),
            }
        },
    decreases depth, 2nat,
{
    if operands.len() == 0 {
        return Ok(S::zero());
    }
    match evaluate_within(&operands[0], environment, depth) {
        Ok(seed) => {
            assert(operands@.skip(1) =~= operands@.drop_first());
            fold_operands(Operator::Minus, operands, 1, environment, depth, seed)
        },
        Err(error) => Err(error),
    }
}

/// The values of the two sides of a comparison, left side first.
pub fn evaluate_sides<S: Scalar>(
    left: &Expression<S>,
    right: &Expression<S>,
    environment: &Environment<S>,
    depth: usize,
) -> (result: Result<(S, S), EvalError>)
    ensures
        result == match left.value(environment@, depth as nat) {
            Ok(left_value) => match right.value(environment@, depth as nat) {
                Ok(right_value) => Ok::<(S, S), EvalError>((left_value, right_value)),
                Err(error) => Err(error),
            },
            Err(error) => Err(error),
        },
    decreases depth, 1nat,
{
    match evaluate_within(left, environment, depth) {
        Ok(left_value) => match evaluate_within(right, environment, depth) {
            Ok(right_value) => Ok((left_value, right_value)),
            Err(error) => Err(error),
        },
        Err(error) => Err(error),
    }
}

/// Whether the values of `left` and `right` compare equal.
pub fn evaluate_conditional_equals<S: Scalar>(
    left: &Expression<S>,
    right: &Expression<S>,
    environment: &Environment<S>,
    depth: usize,
) -> (result: Result<bool, EvalError>)
    ensures
        result == match left.value(environment@, depth as nat) {
            Ok(left_value) => match right.value(environment@, depth as nat) {
                Ok(right_value) => Ok::<bool, EvalError>(left_value.equals_spec(right_value)),
                Err(error) => Err(error),
            },
            Err(error) => Err(error),
        },
    decreases depth, 2nat,
{
    match evaluate_sides(left, right, environment, depth) {
        Ok((left_value, right_value)) => Ok(left_value.equals(&right_value)),
        Err(error) => Err(error),
    }
}

/// Whether the value of `left` is strictly below the value of `right`.
pub fn evaluate_conditional_less_than<S: Scalar>(
    left: &Expression<S>,
    right: &Expression<S>,
    environment: &Environment<S>,
    depth: usize,
) -> (result: Result<bool, EvalError>)
    ensures
        result == match left.value(environment@, depth as nat) {
            Ok(left_value) => match right.value(environment@, depth as nat) {
                Ok(right_value) => Ok::<bool, EvalError>(left_value.less_than_spec(right_value)),
                Err(error) => Err(error),
            },
            Err(error) => Err(error),
        },
    decreases depth, 2nat,
{
    match evaluate_sides(left, right, environment, depth) {
        Ok((left_value, right_value)) => Ok(left_value.less_than(&right_value)),
        Err(error) => Err(error),
    }
}

/// Whether the value of `left` is strictly above the value of `right`.
pub fn evaluate_conditional_greater_than<S: Scalar>(
    left: &Expression<S>,
    right: &Expression<S>,
    environment: &Environment<S>,
    depth: usize,
) -> (result: Result<bool, EvalError>)
    ensures
        result == match left.value(environment@, depth as nat) {
            Ok(left_value) => match right.value(environment@, depth as nat) {
                Ok(right_value) => Ok::<bool, EvalError>(right_value.less_than_spec(left_value)),
                Err(error) => Err(error),
            },
            Err(error) => Err(error),
        },
    decreases depth, 2nat,
{
    match evaluate_sides(left, right, environment, depth) {
        Ok((left_value, right_value)) => Ok(right_value.less_than(&left_value)),
        Err(error) => Err(error),
    }
}

/// Whether `predicate` holds in `environment`.
pub fn evaluate_predicate<S: Scalar>(
    predicate: &Predicate<S>,
    environment: &Environment<S>,
    depth: usize,
) -> (result: Result<bool, EvalError>)
    ensures
        result == predicate.holds(environment@, depth as nat),
    decreases depth, 3nat,
{
    match predicate {
        Predicate::Equals(left, right) => evaluate_conditional_equals(
            left,
            right,
            environment,
            depth,
        ),
        Predicate::LessThan(left, right) => evaluate_conditional_less_than(
            left,
            right,
            environment,
            depth,
        ),
        Predicate::GreaterThan(left, right) => evaluate_conditional_greater_than(
            left,
            right,
            environment,
            depth,
        ),
    }
}

/// The value of `consequent` where `predicate` holds, of `alternate` where
/// it does not. The branch that is not taken is not evaluated.
pub fn evaluate_conditional<S: Scalar>(
    predicate: &Predicate<S>,
    consequent: &Expression<S>,
    alternate: &Expression<S>,
    environment: &Environment<S>,
    depth: usize,
) -> (result: Result<S, EvalError>)
    ensures
        result == match predicate.holds(environment@, depth as nat) {
            Ok(true) => consequent.value(environment@, depth as nat),
            Ok(false) => alternate.value(environment@, depth as nat),
            Err(error) => Err(error),
        },
    decreases depth, 4nat,
{
    match evaluate_predicate(predicate, environment, depth) {
        Ok(holds) => if holds {
            evaluate_within(consequent, environment, depth)
        } else {
            evaluate_within(alternate, environment, depth)
        },
        Err(error) => Err(error),
    }
}

} // verus!
