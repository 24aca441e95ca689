use notification_worker::decimal::{decimal_i32, decimal_u64, zero_padded_u64};

#[test]
fn decimal_of_zero_is_a_single_zero() {
    assert_eq!(decimal_u64(0), "0");
}

#[test]
fn decimal_of_small_numbers() {
    assert_eq!(decimal_u64(7), "7");
    assert_eq!(decimal_u64(9), "9");
    assert_eq!(decimal_u64(10), "10");
    assert_eq!(decimal_u64(42), "42");
    assert_eq!(decimal_u64(1_000_000), "1000000");
}

#[test]
fn decimal_of_the_largest_u64() {
    assert_eq!(decimal_u64(u64::MAX), "18446744073709551615");
}

#[test]
fn decimal_agrees_with_std_formatting() {
    let mut n: u64 = 0;
    while n < 5_000 {
        assert_eq!(decimal_u64(n), format!("{}", n));
        n += 1;
    }
    let mut n: u64 = 1;
    while n < u64::MAX / 7 {
        assert_eq!(decimal_u64(n), format!("{}", n));
        n = n * 7 + 3;
    }
}

#[test]
fn signed_decimal_of_negative_numbers_has_a_minus_sign() {
    assert_eq!(decimal_i32(-1), "-1");
    assert_eq!(decimal_i32(-42), "-42");
    assert_eq!(decimal_i32(0), "0");
    assert_eq!(decimal_i32(42), "42");
}

#[test]
fn signed_decimal_of_the_extremes() {
    assert_eq!(decimal_i32(i32::MIN), "-2147483648");
    assert_eq!(decimal_i32(i32::MAX), "2147483647");
}

#[test]
fn signed_decimal_agrees_with_std_formatting() {
    let mut n: i32 = -3_000;
    while n < 3_000 {
        assert_eq!(decimal_i32(n), format!("{}", n));
        n += 1;
    }
}

#[test]
fn zero_padding_fills_on_the_left() {
    assert_eq!(zero_padded_u64(42, 6), "000042");
    assert_eq!(zero_padded_u64(0, 6), "000000");
    assert_eq!(zero_padded_u64(999_999, 6), "999999");
    assert_eq!(zero_padded_u64(100_000, 6), "100000");
    assert_eq!(zero_padded_u64(7, 1), "7");
}

#[test]
fn zero_padding_of_width_zero_is_empty() {
    assert_eq!(zero_padded_u64(123, 0), "");
}

#[test]
fn zero_padding_keeps_the_last_digits_of_a_longer_number() {
    assert_eq!(zero_padded_u64(1_234_567, 6), "234567");
    assert_eq!(zero_padded_u64(1_234_567, 3), "567");
}

#[test]
fn zero_padding_agrees_with_std_formatting_below_a_million() {
    let mut n: u64 = 0;
    while n < 1_000_000 {
        assert_eq!(zero_padded_u64(n, 6), format!("{:06}", n));
        n += 997;
    }
}
