use deadline_countdown::{
    compute_delta, compute_delta_fallback, format_countdown, format_magnitude,
    parse_date_fallback, with_separators, Date,
};
use num_bigint::BigInt;

fn jan_first_2024() -> Date {
    Date { year: 2024, month: 1, day: 1 }
}

#[test]
fn primary_path_exact_leap_year() {
    let r = compute_delta("2024-03-15", jan_first_2024());
    assert_eq!(r.magnitude, BigInt::from(74));
    assert!(!r.overdue);
}

#[test]
fn primary_path_full_leap_year() {
    let r = compute_delta("2025-01-01", jan_first_2024());
    assert_eq!(r.magnitude, BigInt::from(366));
    assert!(!r.overdue);
}

#[test]
fn primary_path_overdue() {
    let r = compute_delta("2023-12-31", jan_first_2024());
    assert_eq!(r.magnitude, BigInt::from(1));
    assert!(r.overdue);
}

#[test]
fn primary_path_same_day() {
    let r = compute_delta("2024-01-01", jan_first_2024());
    assert_eq!(r.magnitude, BigInt::from(0));
    assert!(!r.overdue);
}

#[test]
fn fallback_same_year() {
    let r = compute_delta_fallback("2024-03-15", jan_first_2024());
    assert_eq!(r.magnitude, BigInt::from(2 * 30 + 14));
    assert!(!r.overdue);
}

#[test]
fn fallback_cross_year() {
    let r = compute_delta_fallback("9999-01-01", jan_first_2024());
    assert_eq!(r.magnitude, BigInt::from(7975i64 * 365 + 7975 / 4));
    assert_eq!(r.magnitude, BigInt::from(2912868));
    assert!(!r.overdue);
}

#[test]
fn fallback_same_year_overdue() {
    let r = compute_delta_fallback("2024-01-01", Date { year: 2024, month: 3, day: 15 });
    assert_eq!(r.magnitude, BigInt::from(74));
    assert!(r.overdue);
}

#[test]
fn fallback_cross_year_overdue_truncating_division() {
    let r = compute_delta_fallback("2023-01-01", Date { year: 2024, month: 6, day: 15 });
    // -365 + (-1)/4 + (1 - 6) * 30 + (1 - 15), with the division toward zero
    assert_eq!(r.magnitude, BigInt::from(529));
    assert!(r.overdue);
}

#[test]
fn malformed_target_gives_zero_not_overdue() {
    let r = compute_delta("2024/13/50", jan_first_2024());
    assert_eq!(r.magnitude, BigInt::from(0));
    assert!(!r.overdue);
}

#[test]
fn empty_target_gives_zero_not_overdue() {
    let r = compute_delta("", jan_first_2024());
    assert_eq!(r.magnitude, BigInt::from(0));
    assert!(!r.overdue);
}

#[test]
fn far_future_year_takes_fallback() {
    let r = compute_delta("999999-01-01", jan_first_2024());
    assert_eq!(r.magnitude, BigInt::from(997975i64 * 365 + 997975 / 4));
    assert!(!r.overdue);
}

#[test]
fn fallback_parse_plain() {
    let (y, m, d) = parse_date_fallback("2024-03-15").unwrap();
    assert_eq!(y, BigInt::from(2024));
    assert_eq!(m, 3);
    assert_eq!(d, 15);
}

#[test]
fn fallback_parse_unpadded() {
    let (y, m, d) = parse_date_fallback("2024-1-1").unwrap();
    assert_eq!(y, BigInt::from(2024));
    assert_eq!(m, 1);
    assert_eq!(d, 1);
}

#[test]
fn fallback_parse_month_out_of_range() {
    assert!(parse_date_fallback("2024-13-01").is_none());
    assert!(parse_date_fallback("2024-00-10").is_none());
}

#[test]
fn fallback_parse_day_out_of_range() {
    assert!(parse_date_fallback("2024-12-32").is_none());
    assert!(parse_date_fallback("2024-12-00").is_none());
}

#[test]
fn fallback_parse_wrong_field_count() {
    assert!(parse_date_fallback("2024-01").is_none());
    assert!(parse_date_fallback("2024-01-01-01").is_none());
    assert!(parse_date_fallback("-500-01-01").is_none());
}

#[test]
fn fallback_parse_year_with_underscore() {
    let (y, m, d) = parse_date_fallback("1_000-01-01").unwrap();
    assert_eq!(y, BigInt::from(1000));
    assert_eq!(m, 1);
    assert_eq!(d, 1);
}

#[test]
fn fallback_parse_huge_year() {
    let (y, _, _) = parse_date_fallback("123456789012345678901234567890-01-01").unwrap();
    assert_eq!(y, "123456789012345678901234567890".parse::<BigInt>().unwrap());
}

#[test]
fn magnitude_three_digits_or_fewer_is_plain() {
    assert_eq!(format_magnitude(&BigInt::from(0)), "0");
    assert_eq!(format_magnitude(&BigInt::from(42)), "42");
    assert_eq!(format_magnitude(&BigInt::from(999)), "999");
}

#[test]
fn magnitude_thousands_separators() {
    assert_eq!(format_magnitude(&BigInt::from(1234)), "1,234");
    assert_eq!(format_magnitude(&BigInt::from(1000000)), "1,000,000");
}

#[test]
fn separators_on_plain_strings() {
    assert_eq!(with_separators("12345"), "12,345");
    assert_eq!(with_separators("123"), "123");
}

#[test]
fn overdue_message() {
    let r = format_countdown(&BigInt::from(0), true, "Deadline");
    assert_eq!(r, "Deadline 0 天（倒计时已过期0天）");
}

#[test]
fn remaining_message() {
    let r = format_countdown(&BigInt::from(1234), false, "距离截止日期还有");
    assert_eq!(r, "距离截止日期还有 1,234 天");
}

#[test]
fn overdue_message_with_separators() {
    let r = format_countdown(&BigInt::from(10000), true, "T");
    assert_eq!(r, "T 0 天（倒计时已过期10,000天）");
}
