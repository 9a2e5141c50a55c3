//! Two-digit fixed-point decimals: an integer part and a count of hundredths.

use vstd::prelude::*;

verus! {

/// A decimal number written as an integer part and a count of hundredths:
/// `FixedPoint(12, 45)` stands for 12.45. The count may be any integer; a
/// count of one hundred or more carries into the integer part when the value
/// is taken.
#[derive(Clone, Copy, Debug, PartialEq, Eq, Structural)]
pub struct FixedPoint(pub i32, pub i32);

impl FixedPoint {
    /// The full units held in the count of hundredths, which move to the
    /// integer part. A count below one hundred, negative ones included,
    /// carries nothing.
    pub open spec fn carry(self) -> int {
        if self.1 >= 100 {
            self.1 / 100
        } else {
            0
        }
    }

    /// The integer part once the hundredths have carried.
    pub open spec fn whole(self) -> int {
        self.0 + self.carry()
    }

    /// The hundredths that are left once the full units have carried.
    pub open spec fn hundredths(self) -> int {
        self.1 - 100 * self.carry()
    }

    /// The number as a count of hundredths.
    pub open spec fn total(self) -> int {
        100 * self.0 + self.1
    }

    /// Carrying changes the parts, not the number; and the hundredths that
    /// are left lie below one hundred, and at or above zero unless the count
    /// was negative.
    pub proof fn lemma_carry_keeps_total(self)
        ensures
            100 * self.whole() + self.hundredths() == self.total(),
            self.hundredths() < 100,
            self.1 >= 0 ==> 0 <= self.hundredths(),
            self.1 < 100 ==> self.whole() == self.0 && self.hundredths() == self.1,
    {
    }

    /// The digits before the decimal point, as written.
    pub fn before_decimal(&self) -> (before: i32)
        ensures
            before == self.0,
    {
        self.0
    }

    /// The count of hundredths after the decimal point, as written.
    pub fn after_decimal(&self) -> (after: i32)
        ensures
            after == self.1,
    {
        self.1
    }
}

/// The integer parts of `operands`, added up.
pub open spec fn sum_before(operands: Seq<FixedPoint>) -> int
    decreases operands.len(),
{
    if operands.len() == 0 {
        0
    } else {
        sum_before(operands.drop_last()) + operands.last().0
    }
}

/// The counts of hundredths of `operands`, added up.
pub open spec fn sum_after(operands: Seq<FixedPoint>) -> int
    decreases operands.len(),
{
    if operands.len() == 0 {
        0
    } else {
        sum_after(operands.drop_last()) + operands.last().1
    }
}

/// The full units that the added-up hundredths of `operands` carry into the
/// integer part: every full hundred where they reach one hundred, nothing
/// below that.
pub open spec fn sum_carry(operands: Seq<FixedPoint>) -> int {
    if sum_after(operands) >= 100 {
        sum_after(operands) / 100
    } else {
        0
    }
}

/// The integer part of the sum of `operands`.
pub open spec fn sum_whole(operands: Seq<FixedPoint>) -> int {
    sum_before(operands) + sum_carry(operands)
}

/// The hundredths of the sum of `operands`.
pub open spec fn sum_hundredths(operands: Seq<FixedPoint>) -> int {
    sum_after(operands) - 100 * sum_carry(operands)
}

/// Whether both parts of the sum of `operands` can be held in a
/// [`FixedPoint`].
pub open spec fn sum_fits(operands: Seq<FixedPoint>) -> bool {
    &&& i32::MIN <= sum_whole(operands) <= i32::MAX
    &&& i32::MIN <= sum_hundredths(operands) <= i32::MAX
}

/// The numbers that `operands` stand for, added up, as a count of hundredths.
pub open spec fn sum_total(operands: Seq<FixedPoint>) -> int
    decreases operands.len(),
{
    if operands.len() == 0 {
        0
    } else {
        sum_total(operands.drop_last()) + operands.last().total()
    }
}

/// The sum of `operands` stands for exactly the numbers added up: the carry
/// moves hundredths, it loses none. What is left after the point lies below
/// one hundred, and at or above zero unless the hundredths added up to less
/// than zero.
pub proof fn lemma_sum_is_exact(operands: Seq<FixedPoint>)
    ensures
        100 * sum_whole(operands) + sum_hundredths(operands) == sum_total(operands),
        sum_hundredths(operands) < 100,
        sum_after(operands) >= 0 ==> 0 <= sum_hundredths(operands),
{
    lemma_total_splits(operands);
}

/// The added-up numbers are the added-up integer parts and hundredths.
proof fn lemma_total_splits(operands: Seq<FixedPoint>)
    ensures
        sum_total(operands) == 100 * sum_before(operands) + sum_after(operands),
    decreases operands.len(),
{
    if operands.len() > 0 {
        lemma_total_splits(operands.drop_last());
    }
}

/// No part of a sum of `count` operands is further from zero than `count`
/// times the largest magnitude of an `i32`.
proof fn lemma_sum_bounds(operands: Seq<FixedPoint>)
    ensures
        -0x8000_0000 * operands.len() <= sum_before(operands) <= 0x8000_0000 * operands.len(),
        -0x8000_0000 * operands.len() <= sum_after(operands) <= 0x8000_0000 * operands.len(),
    decreases operands.len(),
{
    if operands.len() > 0 {
        lemma_sum_bounds(operands.drop_last());
    }
}

/// Adds `operands` up exactly: integer parts and hundredths are summed
/// apart, then the hundredths carry. `None` where a part of the sum is out
/// of the range of a [`FixedPoint`].
pub fn checked_add_fixed_points(operands: &Vec<FixedPoint>) -> (sum: Option<FixedPoint>)
    ensures
        sum_fits(operands@) ==> sum == Some(
            FixedPoint(sum_whole(operands@) as i32, sum_hundredths(operands@) as i32),
        ),
        !sum_fits(operands@) ==> sum is None,
{
    let mut beforesum: i128 = 0;
    let mut aftersum: i128 = 0;
    let mut index: usize = 0;
    while index < operands.len()
        invariant
            index <= operands@.len(),
            beforesum == sum_before(operands@.take(index as int)),
            aftersum == sum_after(operands@.take(index as int)),
        decreases operands@.len() - index,
    {
        proof {
            lemma_sum_bounds(operands@.take(index as int));
            assert(operands@.take(index + 1).drop_last() =~= operands@.take(index as int));
        }
        beforesum = beforesum + operands[index].before_decimal() as i128;
        aftersum = aftersum + operands[index].after_decimal() as i128;
        index = index + 1;
    }
    proof {
        assert(operands@.take(index as int) =~= operands@);
        lemma_sum_bounds(operands@);
    }
    if aftersum >= 100 {
        beforesum = beforesum + aftersum / 100;
        aftersum = aftersum % 100;
    }
    if beforesum < i32::MIN as i128 || beforesum > i32::MAX as i128 || aftersum < i32::MIN as i128
        || aftersum > i32::MAX as i128 {
        None
    } else {
        Some(FixedPoint(beforesum as i32, aftersum as i32))
    }
}

/// Adds `operands` up exactly: integer parts and hundredths are summed
/// apart, then the hundredths carry.
pub fn add_fixed_points(operands: &Vec<FixedPoint>) -> (sum: FixedPoint)
    requires
        sum_fits(operands@),
    ensures
        sum == FixedPoint(sum_whole(operands@) as i32, sum_hundredths(operands@) as i32),
{
    match checked_add_fixed_points(operands) {
        Some(sum) => sum,
        None => unreached(),
    }
}

/// Ten raised to `exponent`.
pub open spec fn power_of_ten(exponent: nat) -> nat
    decreases exponent,
{
    if exponent == 0 {
        1
    } else {
        10 * power_of_ten((exponent - 1) as nat)
    }
}

/// The absolute value of `value`.
pub open spec fn magnitude(value: int) -> nat {
    if value < 0 {
        (-value) as nat
    } else {
        value as nat
    }
}

/// The number of decimal digits needed to write `integer`, ignoring its sign.
/// Zero has one digit.
pub fn get_length(integer: &i32) -> (len: i32)
    ensures
        1 <= len <= 10,
        magnitude(*integer as int) < power_of_ten(len as nat),
        len > 1 ==> power_of_ten((len - 1) as nat) <= magnitude(*integer as int),
{
    let value: i64 = *integer as i64;
    let size: i64 = if value < 0 { -value } else { value };
    let mut len: i32 = 1;
    let mut modulus: i64 = 10;
    assert(power_of_ten(1) == 10) by {
        reveal_with_fuel(power_of_ten, 2);
    }
    while size >= modulus
        invariant
            1 <= len <= 10,
            size == magnitude(*integer as int),
            size <= 0x8000_0000,
            modulus == power_of_ten(len as nat),
            len > 1 ==> power_of_ten((len - 1) as nat) <= size,
        decreases 10 - len,
    {
        assert(len < 10) by {
            if len == 10 {
                reveal_with_fuel(power_of_ten, 11);
                assert(power_of_ten(10) == 10_000_000_000);
            }
        }
        assert(power_of_ten((len + 1) as nat) == 10 * power_of_ten(len as nat));
        modulus = modulus * 10;
        len = len + 1;
    }
    len
}

} // verus!
