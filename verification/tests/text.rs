use normal_game_jam_2024::text::{decimal, two_decimals};

#[test]
fn decimal_digits() {
    assert_eq!(decimal(0), "0");
    assert_eq!(decimal(7), "7");
    assert_eq!(decimal(10), "10");
    assert_eq!(decimal(1_234_567_890), "1234567890");
    assert_eq!(decimal(u64::MAX), "18446744073709551615");
}

#[test]
fn two_decimals_rounds_to_hundredths() {
    assert_eq!(two_decimals(0), "0.00");
    assert_eq!(two_decimals(1_500_000), "1.50");
    assert_eq!(two_decimals(10_000_000), "10.00");
    assert_eq!(two_decimals(-2_000_000), "-2.00");
    assert_eq!(two_decimals(-12_345_678), "-12.35");
    assert_eq!(two_decimals(12_344_999), "12.34");
    assert_eq!(two_decimals(4_999), "0.00");
    assert_eq!(two_decimals(5_000), "0.01");
    assert_eq!(two_decimals(999_999), "1.00");
    assert_eq!(two_decimals(50_000), "0.05");
}

#[test]
fn two_decimals_keeps_the_sign_of_small_values() {
    assert_eq!(two_decimals(-1), "-0.00");
    assert_eq!(two_decimals(-5_000), "-0.01");
}

#[test]
fn two_decimals_at_the_ends_of_the_range() {
    assert_eq!(two_decimals(i64::MAX), "9223372036854.78");
    assert_eq!(two_decimals(i64::MIN), "-9223372036854.78");
}
