//! Exact two-digit decimal addition, digit counting and decimal notation.

use interpreter::notation::integer_to_text;
use interpreter::{add_fixed_points, checked_add_fixed_points, get_length, FixedPoint};

#[test]
fn hundredths_carry_into_the_integer_part() {
    assert_eq!(add_fixed_points(&vec![FixedPoint(0, 92), FixedPoint(0, 9)]), FixedPoint(1, 1));
    assert_eq!(add_fixed_points(&vec![FixedPoint(1, 50), FixedPoint(2, 50)]), FixedPoint(4, 0));
    assert_eq!(add_fixed_points(&vec![FixedPoint(1, 49), FixedPoint(2, 50)]), FixedPoint(3, 99));
}

#[test]
fn every_full_hundred_carries() {
    let operands = vec![FixedPoint(0, 99), FixedPoint(0, 99), FixedPoint(0, 99), FixedPoint(0, 5)];
    assert_eq!(add_fixed_points(&operands), FixedPoint(3, 2));
    assert_eq!(add_fixed_points(&vec![FixedPoint(7, 1234)]), FixedPoint(19, 34));
}

#[test]
fn sum_of_no_operand_is_zero() {
    assert_eq!(add_fixed_points(&vec![]), FixedPoint(0, 0));
    assert_eq!(checked_add_fixed_points(&vec![]), Some(FixedPoint(0, 0)));
}

#[test]
fn sum_of_one_operand_is_that_operand_carried() {
    assert_eq!(add_fixed_points(&vec![FixedPoint(12, 45)]), FixedPoint(12, 45));
    assert_eq!(add_fixed_points(&vec![FixedPoint(12, 100)]), FixedPoint(13, 0));
}

#[test]
fn negative_hundredths_do_not_carry() {
    assert_eq!(add_fixed_points(&vec![FixedPoint(1, -50), FixedPoint(0, 20)]), FixedPoint(1, -30));
    assert_eq!(add_fixed_points(&vec![FixedPoint(0, -50), FixedPoint(0, 150)]), FixedPoint(1, 0));
    assert_eq!(add_fixed_points(&vec![FixedPoint(-2, 75), FixedPoint(-1, 50)]), FixedPoint(-2, 25));
}

#[test]
fn sum_out_of_range_is_refused() {
    assert_eq!(checked_add_fixed_points(&vec![FixedPoint(i32::MAX, 0), FixedPoint(1, 0)]), None);
    assert_eq!(checked_add_fixed_points(&vec![FixedPoint(i32::MAX, 99), FixedPoint(0, 1)]), None);
    assert_eq!(checked_add_fixed_points(&vec![FixedPoint(i32::MIN, 0), FixedPoint(-1, 0)]), None);
    assert_eq!(checked_add_fixed_points(&vec![FixedPoint(0, i32::MIN), FixedPoint(0, -1)]), None);
    assert_eq!(
        checked_add_fixed_points(&vec![FixedPoint(i32::MAX, 99), FixedPoint(0, 0)]),
        Some(FixedPoint(i32::MAX, 99))
    );
    assert_eq!(
        checked_add_fixed_points(&vec![FixedPoint(0, i32::MAX), FixedPoint(0, i32::MAX)]),
        Some(FixedPoint(42949672, 94))
    );
    assert_eq!(
        checked_add_fixed_points(&vec![FixedPoint(i32::MAX, 0), FixedPoint(-1, 100)]),
        Some(FixedPoint(i32::MAX, 0))
    );
}

#[test]
fn checked_sum_agrees_with_the_sum() {
    let operands = vec![FixedPoint(0, 92), FixedPoint(0, 9)];
    assert_eq!(checked_add_fixed_points(&operands), Some(add_fixed_points(&operands)));
}

#[test]
fn parts_are_read_as_written() {
    let fixed_point = FixedPoint(12, 145);
    assert_eq!(fixed_point.before_decimal(), 12);
    assert_eq!(fixed_point.after_decimal(), 145);
}

#[test]
fn length_counts_decimal_digits() {
    assert_eq!(get_length(&0), 1);
    assert_eq!(get_length(&7), 1);
    assert_eq!(get_length(&9), 1);
    assert_eq!(get_length(&10), 2);
    assert_eq!(get_length(&45), 2);
    assert_eq!(get_length(&99), 2);
    assert_eq!(get_length(&100), 3);
    assert_eq!(get_length(&999_999_999), 9);
    assert_eq!(get_length(&1_000_000_000), 10);
    assert_eq!(get_length(&i32::MAX), 10);
}

#[test]
fn length_ignores_the_sign() {
    assert_eq!(get_length(&-5), 1);
    assert_eq!(get_length(&-15), 2);
    assert_eq!(get_length(&-1234), 4);
    assert_eq!(get_length(&i32::MIN), 10);
}

#[test]
fn integers_are_written_in_decimal() {
    assert_eq!(integer_to_text(0), "0");
    assert_eq!(integer_to_text(7), "7");
    assert_eq!(integer_to_text(10), "10");
    assert_eq!(integer_to_text(1234567890), "1234567890");
    assert_eq!(integer_to_text(-1), "-1");
    assert_eq!(integer_to_text(-120), "-120");
    assert_eq!(integer_to_text(i64::MAX), "9223372036854775807");
    assert_eq!(integer_to_text(i64::MIN), "-9223372036854775808");
}
