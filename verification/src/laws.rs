//! What holds of every evaluation, in every number domain.

use vstd::prelude::*;
use crate::environment::Environment;
use crate::error::EvalError;
use crate::evaluate::Operator;
use crate::expression::{Expression, Predicate};
use crate::scalar::Scalar;

verus! {

impl Operator {
    /// The left fold of the operator over `values`, starting from `total`.
    pub open spec fn fold_values<S: Scalar>(self, total: S, values: Seq<S>) -> S
        decreases values.len(),
    {
        if values.len() == 0 {
            total
        } else {
            self.fold_values(self.apply(total, values[0]), values.drop_first())
        }
    }
}

/// A literal number is its own value.
pub proof fn lemma_number_is_its_value<S: Scalar>(
    number: S,
    scopes: Seq<Map<Seq<char>, Expression<S>>>,
    depth: nat,
)
    requires
        depth > 0,
    ensures
        Expression::Number(number).value(scopes, depth) == Ok::<S, EvalError>(number),
{
}

/// A sum without operands is zero, a product without operands is one, and a
/// difference without operands is zero.
pub proof fn lemma_empty_sum_and_product<S: Scalar>(
    operands: Vec<Expression<S>>,
    scopes: Seq<Map<Seq<char>, Expression<S>>>,
    depth: nat,
)
    requires
        operands@.len() == 0,
        depth > 0,
    ensures
        Expression::Add(operands).value(scopes, depth) == Ok::<S, EvalError>(S::zero_spec()),
        Expression::Multiply(operands).value(scopes, depth) == Ok::<S, EvalError>(S::one_spec()),
        Expression::Subtract(operands).value(scopes, depth) == Ok::<S, EvalError>(S::zero_spec()),
{
    let inner = (depth - 1) as nat;
    assert(Expression::fold(Operator::Plus, operands@, scopes, inner, S::zero_spec()) == Ok::<
        S,
        EvalError,
    >(S::zero_spec()));
    assert(Expression::fold(Operator::Times, operands@, scopes, inner, S::one_spec()) == Ok::<
        S,
        EvalError,
    >(S::one_spec()));
}

/// Where every operand has a value, folding the operands is folding their
/// values.
pub proof fn lemma_fold_of_values<S: Scalar>(
    operator: Operator,
    operands: Seq<Expression<S>>,
    values: Seq<S>,
    scopes: Seq<Map<Seq<char>, Expression<S>>>,
    depth: nat,
    total: S,
)
    requires
        operands.len() == values.len(),
        forall|index: int|
            0 <= index < operands.len() ==> #[trigger] operands[index].value(scopes, depth) == Ok::<
                S,
                EvalError,
            >(values[index]),
    ensures
        Expression::fold(operator, operands, scopes, depth, total) == Ok::<S, EvalError>(
            operator.fold_values(total, values),
        ),
    decreases operands.len(),
{
    if operands.len() > 0 {
        assert(operands[0].value(scopes, depth) == Ok::<S, EvalError>(values[0]));
        let rest = operands.drop_first();
        let rest_values = values.drop_first();
        assert forall|index: int| 0 <= index < rest.len() implies #[trigger] rest[index].value(
            scopes,
            depth,
        ) == Ok::<S, EvalError>(rest_values[index]) by {
            assert(rest[index] == operands[index + 1]);
            assert(rest_values[index] == values[index + 1]);
        }
        lemma_fold_of_values(
            operator,
            rest,
            rest_values,
            scopes,
            depth,
            operator.apply(total, values[0]),
        );
    }
}

/// The sum of three operands that have values is zero plus the first value,
/// plus the second, plus the third.
pub proof fn lemma_sum_of_three<S: Scalar>(
    operands: Vec<Expression<S>>,
    first: S,
    second: S,
    third: S,
    scopes: Seq<Map<Seq<char>, Expression<S>>>,
    depth: nat,
)
    requires
        operands@.len() == 3,
        operands@[0].value(scopes, depth) == Ok::<S, EvalError>(first),
        operands@[1].value(scopes, depth) == Ok::<S, EvalError>(second),
        operands@[2].value(scopes, depth) == Ok::<S, EvalError>(third),
    ensures
        Expression::Add(operands).value(scopes, depth + 1) == Ok::<S, EvalError>(
            S::zero_spec().plus_spec(first).plus_spec(second).plus_spec(third),
        ),
        S::zero_spec().plus_spec(first) == first ==> Expression::Add(operands).value(
            scopes,
            depth + 1,
        ) == Ok::<S, EvalError>(first.plus_spec(second).plus_spec(third)),
{
    let values = seq![first, second, third];
    lemma_fold_of_values(Operator::Plus, operands@, values, scopes, depth, S::zero_spec());
    reveal_with_fuel(Operator::fold_values, 4);
    assert(values.drop_first() =~= seq![second, third]);
    assert(values.drop_first().drop_first() =~= seq![third]);
    assert(values.drop_first().drop_first().drop_first() =~= Seq::<S>::empty());
}

/// The difference of three operands that have values is the first value,
/// less the second, less the third.
pub proof fn lemma_difference_of_three<S: Scalar>(
    operands: Vec<Expression<S>>,
    first: S,
    second: S,
    third: S,
    scopes: Seq<Map<Seq<char>, Expression<S>>>,
    depth: nat,
)
    requires
        operands@.len() == 3,
        operands@[0].value(scopes, depth) == Ok::<S, EvalError>(first),
        operands@[1].value(scopes, depth) == Ok::<S, EvalError>(second),
        operands@[2].value(scopes, depth) == Ok::<S, EvalError>(third),
    ensures
        Expression::Subtract(operands).value(scopes, depth + 1) == Ok::<S, EvalError>(
            first.minus_spec(second).minus_spec(third),
        ),
{
    let rest = operands@.drop_first();
    let values = seq![second, third];
    assert(rest[0] == operands@[1]);
    assert(rest[1] == operands@[2]);
    lemma_fold_of_values(Operator::Minus, rest, values, scopes, depth, first);
    reveal_with_fuel(Operator::fold_values, 3);
    assert(values.drop_first() =~= seq![third]);
    assert(values.drop_first().drop_first() =~= Seq::<S>::empty());
}

/// A variable is worth what the expression bound to it is worth in the same
/// chain of scopes, one level further down.
pub proof fn lemma_variable_is_its_binding<S: Scalar>(
    name: String,
    scopes: Seq<Map<Seq<char>, Expression<S>>>,
    depth: nat,
)
    requires
        Environment::<S>::resolve(scopes, name@) is Some,
    ensures
        Expression::<S>::Variable(name).value(scopes, depth + 1) == Environment::<S>::resolve(
            scopes,
            name@,
        )->0.value(scopes, depth),
{
}

/// A variable that no scope of the chain binds has no value: the evaluation
/// fails and names the variable.
pub proof fn lemma_unbound_variable<S: Scalar>(
    name: String,
    scopes: Seq<Map<Seq<char>, Expression<S>>>,
    depth: nat,
)
    requires
        depth > 0,
        forall|index: int| 0 <= index < scopes.len() ==> !#[trigger] scopes[index].contains_key(name@),
    ensures
        Expression::<S>::Variable(name).value(scopes, depth) == Err::<S, EvalError>(
            EvalError::UnboundVariable(name),
        ),
{
    Environment::<S>::lemma_resolve_is_nearest(scopes, name@);
}

/// A conditional is worth its consequent where the predicate holds and its
/// alternate where it does not; the other branch plays no part.
pub proof fn lemma_conditional_selects<S: Scalar>(
    predicate: Predicate<S>,
    consequent: Expression<S>,
    alternate: Expression<S>,
    scopes: Seq<Map<Seq<char>, Expression<S>>>,
    depth: nat,
)
    ensures
        predicate.holds(scopes, depth) == Ok::<bool, EvalError>(true) ==> Expression::Conditional(
            Box::new(predicate),
            Box::new(consequent),
            Box::new(alternate),
        ).value(scopes, depth + 1) == consequent.value(scopes, depth),
        predicate.holds(scopes, depth) == Ok::<bool, EvalError>(false) ==> Expression::Conditional(
            Box::new(predicate),
            Box::new(consequent),
            Box::new(alternate),
        ).value(scopes, depth + 1) == alternate.value(scopes, depth),
{
}

/// An outcome other than running out of depth does not depend on the depth:
/// one more level leaves it as it is.
pub proof fn lemma_value_one_level_deeper<S: Scalar>(
    expression: Expression<S>,
    scopes: Seq<Map<Seq<char>, Expression<S>>>,
    depth: nat,
)
    requires
        expression.value(scopes, depth) != Err::<S, EvalError>(EvalError::DepthLimitExceeded),
    ensures
        expression.value(scopes, depth + 1) == expression.value(scopes, depth),
    decreases depth, 0nat, 0nat,
{
    let inner = (depth - 1) as nat;
    match expression {
        Expression::Number(_) => {},
        Expression::FixedPoint(_) => {},
        Expression::Add(operands) => {
            lemma_fold_one_level_deeper(Operator::Plus, operands@, scopes, inner, S::zero_spec());
        },
        Expression::Multiply(operands) => {
            lemma_fold_one_level_deeper(Operator::Times, operands@, scopes, inner, S::one_spec());
        },
        Expression::Subtract(operands) => {
            if operands@.len() > 0 {
                lemma_value_one_level_deeper(operands@[0], scopes, inner);
                match operands@[0].value(scopes, inner) {
                    Ok(seed) => {
                        lemma_fold_one_level_deeper(
                            Operator::Minus,
                            operands@.drop_first(),
                            scopes,
                            inner,
                            seed,
                        );
                    },
                    Err(_) => {},
                }
            }
        },
        Expression::Variable(name) => {
            match Environment::<S>::resolve(scopes, name@) {
                Some(bound) => {
                    lemma_value_one_level_deeper(bound, scopes, inner);
                },
                None => {},
            }
        },
        Expression::Conditional(predicate, consequent, alternate) => {
            lemma_holds_one_level_deeper(*predicate, scopes, inner);
            match predicate.holds(scopes, inner) {
                Ok(true) => {
                    lemma_value_one_level_deeper(*consequent, scopes, inner);
                },
                Ok(false) => {
                    lemma_value_one_level_deeper(*alternate, scopes, inner);
                },
                Err(_) => {},
            }
        },
    }
}

/// A fold that did not run out of depth is the same one level deeper.
pub proof fn lemma_fold_one_level_deeper<S: Scalar>(
    operator: Operator,
    operands: Seq<Expression<S>>,
    scopes: Seq<Map<Seq<char>, Expression<S>>>,
    depth: nat,
    total: S,
)
    requires
        Expression::fold(operator, operands, scopes, depth, total) != Err::<S, EvalError>(
            EvalError::DepthLimitExceeded,
        ),
    ensures
        Expression::fold(operator, operands, scopes, depth + 1, total) == Expression::fold(
            operator,
            operands,
            scopes,
            depth,
            total,
        ),
    decreases depth, 1nat, operands.len(),
{
    if operands.len() > 0 {
        lemma_value_one_level_deeper(operands[0], scopes, depth);
        match operands[0].value(scopes, depth) {
            Ok(next) => {
                lemma_fold_one_level_deeper(
                    operator,
                    operands.drop_first(),
                    scopes,
                    depth,
                    operator.apply(total, next),
                );
            },
            Err(_) => {},
        }
    }
}

/// A predicate that could be told without running out of depth is told the
/// same one level deeper.
pub proof fn lemma_holds_one_level_deeper<S: Scalar>(
    predicate: Predicate<S>,
    scopes: Seq<Map<Seq<char>, Expression<S>>>,
    depth: nat,
)
    requires
        predicate.holds(scopes, depth) != Err::<bool, EvalError>(EvalError::DepthLimitExceeded),
    ensures
        predicate.holds(scopes, depth + 1) == predicate.holds(scopes, depth),
    decreases depth, 1nat, 0nat,
{
    lemma_value_one_level_deeper(predicate.left(), scopes, depth);
    match predicate.left().value(scopes, depth) {
        Ok(_) => {
            lemma_value_one_level_deeper(predicate.right(), scopes, depth);
        },
        Err(_) => {},
    }
}

/// An outcome other than running out of depth is the outcome at every
/// greater depth.
pub proof fn lemma_value_is_stable<S: Scalar>(
    expression: Expression<S>,
    scopes: Seq<Map<Seq<char>, Expression<S>>>,
    depth: nat,
    deeper: nat,
)
    requires
        depth <= deeper,
        expression.value(scopes, depth) != Err::<S, EvalError>(EvalError::DepthLimitExceeded),
    ensures
        expression.value(scopes, deeper) == expression.value(scopes, depth),
    decreases deeper - depth,
{
    if depth < deeper {
        lemma_value_is_stable(expression, scopes, depth, (deeper - 1) as nat);
        lemma_value_one_level_deeper(expression, scopes, (deeper - 1) as nat);
    }
}

} // verus!
