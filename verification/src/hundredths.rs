//! An exact number domain: decimals with two digits after the point.

use vstd::prelude::*;
use crate::error::EvalError;
use crate::evaluate::Operator;
use crate::expression::Expression;
use crate::fixed_point::FixedPoint;
use crate::notation::{append_digits, digit_text};
use crate::scalar::Scalar;

verus! {

/// A decimal number held as a count of hundredths, so that `Hundredths(1245)`
/// stands for 12.45.
///
/// Sums, differences and conversions are exact. A product is cut off after
/// its second decimal digit. A result outside the range of `i64` is replaced
/// by the nearest end of that range.
#[derive(Clone, Copy, Debug, PartialEq, Eq, Structural)]
pub struct Hundredths(pub i64);

impl Hundredths {
    /// The count nearest to `count` that an `i64` can hold.
    pub open spec fn saturate(count: int) -> i64 {
        if count > i64::MAX {
            i64::MAX
        } else if count < i64::MIN {
            i64::MIN
        } else {
            count as i64
        }
    }

    /// `units` divided by one hundred, rounded toward zero.
    pub open spec fn scale_down(units: int) -> int {
        if units >= 0 {
            units / 100
        } else {
            -((-units) / 100)
        }
    }

    /// The count without its sign.
    pub open spec fn size(self) -> nat {
        if self.0 < 0 {
            (-self.0) as nat
        } else {
            self.0 as nat
        }
    }

    fn saturated(count: i128) -> (value: Self)
        ensures
            value == Hundredths(Self::saturate(count as int)),
    {
        if count > i64::MAX as i128 {
            Hundredths(i64::MAX)
        } else if count < i64::MIN as i128 {
            Hundredths(i64::MIN)
        } else {
            Hundredths(count as i64)
        }
    }
}

impl Scalar for Hundredths {
    open spec fn zero_spec() -> Self {
        Hundredths(0)
    }

    open spec fn one_spec() -> Self {
        Hundredths(100)
    }

    open spec fn plus_spec(self, rhs: Self) -> Self {
        Hundredths(Self::saturate(self.0 + rhs.0))
    }

    open spec fn minus_spec(self, rhs: Self) -> Self {
        Hundredths(Self::saturate(self.0 - rhs.0))
    }

    open spec fn times_spec(self, rhs: Self) -> Self {
        Hundredths(Self::saturate(Self::scale_down(self.0 * rhs.0)))
    }

    open spec fn equals_spec(self, rhs: Self) -> bool {
        self.0 == rhs.0
    }

    open spec fn less_than_spec(self, rhs: Self) -> bool {
        self.0 < rhs.0
    }

    open spec fn from_fixed_spec(whole: int, hundredths: int) -> Self {
        Hundredths(Self::saturate(whole * 100 + hundredths))
    }

    open spec fn text_spec(self) -> Seq<char> {
        (if self.0 < 0 {
            seq!['-']
        } else {
            Seq::empty()
        }) + crate::notation::digits(self.size() / 100) + seq![
            '.',
            crate::notation::digit_char((self.size() / 10 % 10) as int),
            crate::notation::digit_char((self.size() % 10) as int),
        ]
    }

    fn zero() -> (value: Self) {
        Hundredths(0)
    }

    fn one() -> (value: Self) {
        Hundredths(100)
    }

    fn plus(&self, rhs: &Self) -> (value: Self) {
        Self::saturated(self.0 as i128 + rhs.0 as i128)
    }

    fn minus(&self, rhs: &Self) -> (value: Self) {
        Self::saturated(self.0 as i128 - rhs.0 as i128)
    }

    fn times(&self, rhs: &Self) -> (value: Self) {
        let left: i128 = self.0 as i128;
        let right: i128 = rhs.0 as i128;
        assert(-0x4000_0000_0000_0000_0000_0000_0000_0000 <= left * right
            <= 0x4000_0000_0000_0000_0000_0000_0000_0000) by (nonlinear_arith)
            requires
                -0x8000_0000_0000_0000 <= left <= 0x8000_0000_0000_0000,
                -0x8000_0000_0000_0000 <= right <= 0x8000_0000_0000_0000,
        ;
        let units: i128 = left * right;
        if units >= 0 {
            Self::saturated(units / 100)
        } else {
            Self::saturated(-((-units) / 100))
        }
    }

    fn equals(&self, rhs: &Self) -> (same: bool) {
        self.0 == rhs.0
    }

    fn less_than(&self, rhs: &Self) -> (below: bool) {
        self.0 < rhs.0
    }

    fn from_fixed(whole: i64, hundredths: i32) -> (value: Self) {
        Self::saturated(whole as i128 * 100 + hundredths as i128)
    }

    fn text(&self) -> (text: String) {
        proof {
            reveal_strlit("-");
            reveal_strlit(".");
        }
        let mut text = String::new();
        let size: u64 = if self.0 == i64::MIN {
            0x8000_0000_0000_0000
        } else if self.0 < 0 {
            (-self.0) as u64
        } else {
            self.0 as u64
        };
        if self.0 < 0 {
            text.append("-");
        }
        append_digits(&mut text, size / 100);
        text.append(".");
        text.append(digit_text(size / 10 % 10));
        text.append(digit_text(size % 10));
        assert(text@ =~= self.text_spec());
        text
    }
}

/// Zero added to a number, on either side, leaves the number as it is, and
/// so does one as a factor.
pub proof fn lemma_identities(value: Hundredths)
    ensures
        Hundredths::zero_spec().plus_spec(value) == value,
        value.plus_spec(Hundredths::zero_spec()) == value,
        value.minus_spec(Hundredths::zero_spec()) == value,
        Hundredths::one_spec().times_spec(value) == value,
        value.times_spec(Hundredths::one_spec()) == value,
{
    assert(Hundredths::scale_down(100 * value.0) == value.0);
    assert(Hundredths::scale_down(value.0 * 100) == value.0);
}

/// A fixed-point literal is worth exactly the number it stands for: no
/// literal is out of range.
pub proof fn lemma_literal_is_exact(
    fixed_point: FixedPoint,
    scopes: Seq<Map<Seq<char>, Expression<Hundredths>>>,
    depth: nat,
)
    requires
        depth > 0,
    ensures
        Expression::<Hundredths>::FixedPoint(fixed_point).value(scopes, depth) == Ok::<
            Hundredths,
            EvalError,
        >(Hundredths(fixed_point.total() as i64)),
        i64::MIN <= fixed_point.total() <= i64::MAX,
{
    fixed_point.lemma_carry_keeps_total();
}

/// The numbers that `operands` stand for, added up from the left.
proof fn lemma_total_from_the_left(operands: Seq<FixedPoint>)
    requires
        operands.len() > 0,
    ensures
        crate::fixed_point::sum_total(operands) == operands[0].total()
            + crate::fixed_point::sum_total(operands.drop_first()),
    decreases operands.len(),
{
    if operands.len() == 1 {
        assert(operands.drop_last() =~= Seq::<FixedPoint>::empty());
        assert(operands.drop_first() =~= Seq::<FixedPoint>::empty());
    } else {
        lemma_total_from_the_left(operands.drop_last());
        assert(operands.drop_last().drop_first() =~= operands.drop_first().drop_last());
        assert(operands.drop_last()[0] == operands[0]);
        assert(operands.drop_first().last() == operands.last());
    }
}

/// Whether `start` and every sum of `start` with the first few of
/// `operands` can be held as a count of hundredths.
pub open spec fn running_totals_fit(start: int, operands: Seq<FixedPoint>) -> bool {
    forall|count: int|
        0 <= count <= operands.len() ==> i64::MIN <= start + #[trigger] crate::fixed_point::sum_total(
            operands.take(count),
        ) <= i64::MAX
}

/// Adding fixed-point literals up is exact: where no running total leaves
/// the range, the sum of the literals from `start` is `start` and the
/// numbers they stand for, added up with nothing lost.
pub proof fn lemma_sum_of_literals_is_exact(
    operands: Seq<FixedPoint>,
    literals: Seq<Expression<Hundredths>>,
    scopes: Seq<Map<Seq<char>, Expression<Hundredths>>>,
    depth: nat,
    start: Hundredths,
)
    requires
        depth > 0,
        literals.len() == operands.len(),
        forall|index: int|
            0 <= index < operands.len() ==> #[trigger] literals[index] == Expression::<
                Hundredths,
            >::FixedPoint(operands[index]),
        running_totals_fit(start.0 as int, operands),
    ensures
        Expression::fold(Operator::Plus, literals, scopes, depth, start) == Ok::<
            Hundredths,
            EvalError,
        >(Hundredths((start.0 + crate::fixed_point::sum_total(operands)) as i64)),
    decreases operands.len(),
{
    if operands.len() == 0 {
        assert(operands.take(0) =~= operands);
    } else {
        let first = operands[0];
        let rest = operands.drop_first();
        let rest_literals = literals.drop_first();
        lemma_literal_is_exact(first, scopes, depth);
        assert(literals[0] == Expression::<Hundredths>::FixedPoint(first));
        lemma_total_from_the_left(operands);
        assert(crate::fixed_point::sum_total(operands.take(1)) == first.total()) by {
            assert(operands.take(1).drop_last() =~= Seq::<FixedPoint>::empty());
            assert(operands.take(1).last() == first);
            reveal_with_fuel(crate::fixed_point::sum_total, 2);
        }
        let next = start.plus_spec(Hundredths(first.total() as i64));
        assert(next.0 == start.0 + first.total());
        assert forall|index: int| 0 <= index < rest.len() implies #[trigger] rest_literals[index]
            == Expression::<Hundredths>::FixedPoint(rest[index]) by {
            assert(rest_literals[index] == literals[index + 1]);
            assert(rest[index] == operands[index + 1]);
        }
        assert forall|count: int| 0 <= count <= rest.len() implies i64::MIN <= next.0
            + #[trigger] crate::fixed_point::sum_total(rest.take(count)) <= i64::MAX by {
            let prefix = operands.take(count + 1);
            lemma_total_from_the_left(prefix);
            assert(prefix.drop_first() =~= rest.take(count));
            assert(prefix[0] == first);
        }
        lemma_sum_of_literals_is_exact(rest, rest_literals, scopes, depth, next);
    }
}

/// The sum that [`add_fixed_points`](crate::fixed_point::add_fixed_points)
/// returns is worth the numbers added up, which is what evaluating the sum
/// of the literals gives where no running total leaves the range.
pub proof fn lemma_fixed_sum_agrees_with_evaluation(
    operands: Seq<FixedPoint>,
    literals: Vec<Expression<Hundredths>>,
    scopes: Seq<Map<Seq<char>, Expression<Hundredths>>>,
    depth: nat,
)
    requires
        depth > 0,
        crate::fixed_point::sum_fits(operands),
        literals@.len() == operands.len(),
        forall|index: int|
            0 <= index < operands.len() ==> #[trigger] literals@[index] == Expression::<
                Hundredths,
            >::FixedPoint(operands[index]),
        running_totals_fit(0, operands),
    ensures
        Expression::Add(literals).value(scopes, depth + 1) == Expression::<Hundredths>::FixedPoint(
            FixedPoint(
                crate::fixed_point::sum_whole(operands) as i32,
                crate::fixed_point::sum_hundredths(operands) as i32,
            ),
        ).value(scopes, depth),
{
    let sum = FixedPoint(
        crate::fixed_point::sum_whole(operands) as i32,
        crate::fixed_point::sum_hundredths(operands) as i32,
    );
    crate::fixed_point::lemma_sum_is_exact(operands);
    lemma_literal_is_exact(sum, scopes, depth);
    lemma_sum_of_literals_is_exact(operands, literals@, scopes, depth, Hundredths(0));
}

} // verus!
