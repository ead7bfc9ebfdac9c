use price_tracker::error::LedgerError;
use price_tracker::price::{lenient_price, parse_price, parse_user_price, price_text};

#[test]
fn price_text_has_two_fraction_digits() {
    assert_eq!(price_text(0), "0.00");
    assert_eq!(price_text(5), "0.05");
    assert_eq!(price_text(50), "0.50");
    assert_eq!(price_text(100), "1.00");
    assert_eq!(price_text(1250), "12.50");
    assert_eq!(price_text(123_456_789), "1234567.89");
    assert_eq!(price_text(u64::MAX), "184467440737095516.15");
}

#[test]
fn parse_price_reads_plain_amounts() {
    assert_eq!(parse_price("12.50"), Some(1250));
    assert_eq!(parse_price("12.5"), Some(1250));
    assert_eq!(parse_price("12"), Some(1200));
    assert_eq!(parse_price("0"), Some(0));
    assert_eq!(parse_price("0.00"), Some(0));
    assert_eq!(parse_price("0.07"), Some(7));
    assert_eq!(parse_price("007.50"), Some(750));
}

#[test]
fn parse_price_accepts_missing_part_and_plus_sign() {
    assert_eq!(parse_price(".5"), Some(50));
    assert_eq!(parse_price("5."), Some(500));
    assert_eq!(parse_price("+3.14"), Some(314));
    assert_eq!(parse_price("+.5"), Some(50));
}

#[test]
fn parse_price_rounds_third_fraction_digit_half_up() {
    assert_eq!(parse_price("1.004"), Some(100));
    assert_eq!(parse_price("1.005"), Some(101));
    assert_eq!(parse_price("1.0049"), Some(100));
    assert_eq!(parse_price("1.239"), Some(124));
    assert_eq!(parse_price("0.999"), Some(100));
    assert_eq!(parse_price("2.34999999"), Some(235));
    assert_eq!(parse_price("2.3449999"), Some(234));
}

#[test]
fn parse_price_refuses_what_is_no_amount() {
    assert_eq!(parse_price(""), None);
    assert_eq!(parse_price("."), None);
    assert_eq!(parse_price("+"), None);
    assert_eq!(parse_price("+."), None);
    assert_eq!(parse_price("abc"), None);
    assert_eq!(parse_price("-5"), None);
    assert_eq!(parse_price("1e3"), None);
    assert_eq!(parse_price("1.2.3"), None);
    assert_eq!(parse_price(" 5"), None);
    assert_eq!(parse_price("5 "), None);
    assert_eq!(parse_price("12,5"), None);
    assert_eq!(parse_price("++5"), None);
    assert_eq!(parse_price("5+"), None);
    assert_eq!(parse_price("١٢"), None);
    assert_eq!(parse_price("12€"), None);
}

#[test]
fn parse_price_holds_amounts_up_to_the_largest() {
    assert_eq!(parse_price("184467440737095516.15"), Some(u64::MAX));
    assert_eq!(parse_price("184467440737095516.154"), Some(u64::MAX));
    assert_eq!(parse_price("184467440737095516.155"), None);
    assert_eq!(parse_price("184467440737095516.16"), None);
    assert_eq!(parse_price("184467440737095517"), None);
    assert_eq!(parse_price("99999999999999999999999999"), None);
    assert_eq!(parse_price("00000000000000000000000000001"), Some(100));
}

#[test]
fn lenient_price_takes_bad_cell_for_zero() {
    assert_eq!(lenient_price("abc"), 0);
    assert_eq!(lenient_price(""), 0);
    assert_eq!(lenient_price("-1.00"), 0);
    assert_eq!(lenient_price("3.20"), 320);
}

#[test]
fn parse_user_price_takes_comma_for_dot() {
    assert_eq!(parse_user_price("12,5"), Ok(1250));
    assert_eq!(parse_user_price("12.5"), Ok(1250));
    assert_eq!(parse_user_price(",5"), Ok(50));
    assert_eq!(parse_user_price("7"), Ok(700));
}

#[test]
fn parse_user_price_refuses_bad_text() {
    assert_eq!(parse_user_price("abc"), Err(LedgerError::InvalidPrice));
    assert_eq!(parse_user_price(""), Err(LedgerError::InvalidPrice));
    assert_eq!(parse_user_price("1,2,3"), Err(LedgerError::InvalidPrice));
    assert_eq!(parse_user_price("1.2,3"), Err(LedgerError::InvalidPrice));
    assert_eq!(parse_user_price("-4"), Err(LedgerError::InvalidPrice));
}

#[test]
fn price_text_reads_back_as_the_same_price() {
    let samples: Vec<u64> = vec![0, 1, 9, 10, 99, 100, 101, 999, 1000, 1250, 99_999, 1_000_000, u64::MAX - 1, u64::MAX];
    for cents in samples {
        assert_eq!(parse_price(&price_text(cents)), Some(cents));
        assert_eq!(lenient_price(&price_text(cents)), cents);
    }
}
