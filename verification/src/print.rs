//! Expressions written out in parenthesized prefix notation.

use vstd::prelude::*;
use crate::expression::{Expression, Predicate};
use crate::notation::append_integer;
use crate::scalar::Scalar;

verus! {

impl<S: Scalar> Expression<S> {
    /// The expression in prefix notation. An n-ary expression is its
    /// operator and its operands between parentheses, a blank before each
    /// operand; a variable is its name; a number is its own notation.
    pub open spec fn text(self) -> Seq<char>
        decreases self,
    {
        match self {
            Expression::Add(operands) => "(+"@ + Self::operands_text(operands@) + ")"@,
            Expression::Multiply(operands) => "(*"@ + Self::operands_text(operands@) + ")"@,
            Expression::Subtract(operands) => "(-"@ + Self::operands_text(operands@) + ")"@,
            Expression::Variable(name) => name@,
            Expression::Number(value) => value.text_spec(),
            Expression::FixedPoint(fixed_point) => "(fixed "@ + crate::notation::integer_text(
                fixed_point.0 as int,
            ) + " "@ + crate::notation::integer_text(fixed_point.1 as int) + ")"@,
            Expression::Conditional(predicate, consequent, alternate) => "(if "@
                + predicate.text() + " "@ + consequent.text() + " "@ + alternate.text() + ")"@,
        }
    }

    /// The operands in prefix notation, in order, a blank before each.
    pub open spec fn operands_text(operands: Seq<Expression<S>>) -> Seq<char>
        decreases operands,
    {
        if operands.len() == 0 {
            Seq::empty()
        } else {
            Self::operands_text(operands.drop_last()) + " "@ + operands.last().text()
        }
    }
}

impl<S: Scalar> Predicate<S> {
    /// The comparison in prefix notation: its sign and its two sides between
    /// parentheses.
    pub open spec fn text(self) -> Seq<char>
        decreases self,
    {
        match self {
            Predicate::GreaterThan(left, right) => "(> "@ + left.text() + " "@ + right.text()
                + ")"@,
            Predicate::LessThan(left, right) => "(< "@ + left.text() + " "@ + right.text() + ")"@,
            Predicate::Equals(left, right) => "(= "@ + left.text() + " "@ + right.text() + ")"@,
        }
    }
}

/// The expression in prefix notation.
pub fn format_expression<S: Scalar>(expression: &Expression<S>) -> (text: String)
    ensures
        text@ == expression.text(),
{
    let mut text = String::new();
    append_expression(&mut text, expression);
    assert(text@ =~= expression.text());
    text
}

/// Appends the expression in prefix notation to `text`.
pub fn append_expression<S: Scalar>(text: &mut String, expression: &Expression<S>)
    ensures
        final(text)@ == old(text)@ + expression.text(),
    decreases expression,
{
    match expression {
        Expression::Add(operands) => {
            text.append("(+");
            append_operands(text, operands);
            text.append(")");
        },
        Expression::Multiply(operands) => {
            text.append("(*");
            append_operands(text, operands);
            text.append(")");
        },
        Expression::Subtract(operands) => {
            text.append("(-");
            append_operands(text, operands);
            text.append(")");
        },
        Expression::Variable(name) => {
            text.append(name.as_str());
        },
        Expression::Number(value) => {
            let number = value.text();
            text.append(number.as_str());
        },
        Expression::FixedPoint(fixed_point) => {
            text.append("(fixed ");
            append_integer(text, fixed_point.before_decimal() as i64);
            text.append(" ");
            append_integer(text, fixed_point.after_decimal() as i64);
            text.append(")");
        },
        Expression::Conditional(predicate, consequent, alternate) => {
            text.append("(if ");
            append_predicate(text, predicate);
            text.append(" ");
            append_expression(text, consequent);
            text.append(" ");
            append_expression(text, alternate);
            text.append(")");
        },
    }
    assert(final(text)@ =~= old(text)@ + expression.text());
}

/// Appends the operands in prefix notation to `text`, a blank before each.
pub fn append_operands<S: Scalar>(text: &mut String, operands: &Vec<Expression<S>>)
    ensures
        final(text)@ == old(text)@ + Expression::operands_text(operands@),
    decreases operands,
{
    let mut index: usize = 0;
    assert(operands@.take(0) =~= Seq::empty());
    assert(text@ =~= old(text)@ + Expression::operands_text(operands@.take(0)));
    while index < operands.len()
        invariant
            index <= operands@.len(),
            text@ == old(text)@ + Expression::operands_text(operands@.take(index as int)),
        decreases operands@.len() - index,
    {
        assert(operands@.take(index + 1).drop_last() =~= operands@.take(index as int));
        assert(operands@.take(index + 1).last() == operands@[index as int]);
        text.append(" ");
        append_expression(text, &operands[index]);
        index = index + 1;
        assert(text@ =~= old(text)@ + Expression::operands_text(operands@.take(index as int)));
    }
    assert(operands@.take(index as int) =~= operands@);
}

/// Appends the comparison in prefix notation to `text`.
pub fn append_predicate<S: Scalar>(text: &mut String, predicate: &Predicate<S>)
    ensures
        final(text)@ == old(text)@ + predicate.text(),
    decreases predicate,
{
    match predicate {
        Predicate::GreaterThan(left, right) => {
            text.append("(> ");
            append_expression(text, left);
            text.append(" ");
            append_expression(text, right);
            text.append(")");
        },
        Predicate::LessThan(left, right) => {
            text.append("(< ");
            append_expression(text, left);
            text.append(" ");
            append_expression(text, right);
            text.append(")");
        },
        Predicate::Equals(left, right) => {
            text.append("(= ");
            append_expression(text, left);
            text.append(" ");
            append_expression(text, right);
            text.append(")");
        },
    }
    assert(final(text)@ =~= old(text)@ + predicate.text());
}

} // verus!
