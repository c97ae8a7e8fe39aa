//! Amount-converter behavior: exact scaling, rounding half away from zero,
//! rejection of anything that is not a non-negative decimal number.

use txflow::amount::{human_amount_to_raw, raw_to_human};
use txflow::errors::TxError;

#[test]
fn convert_whole_number() {
    assert_eq!(human_amount_to_raw("120", 6), Ok("120000000".to_string()));
}

#[test]
fn convert_zero() {
    assert_eq!(human_amount_to_raw("0", 6), Ok("0".to_string()));
}

#[test]
fn convert_rejects_negative() {
    assert_eq!(human_amount_to_raw("-1", 6), Err(TxError::InvalidAmount));
}

#[test]
fn convert_rejects_non_numeric() {
    assert_eq!(human_amount_to_raw("abc", 6), Err(TxError::InvalidAmount));
}

#[test]
fn convert_smallest_fraction() {
    assert_eq!(human_amount_to_raw("0.000001", 6), Ok("1".to_string()));
}

#[test]
fn convert_rounds_half_away_from_zero() {
    assert_eq!(human_amount_to_raw("0.0000005", 6), Ok("1".to_string()));
    assert_eq!(human_amount_to_raw("1.5", 0), Ok("2".to_string()));
    assert_eq!(human_amount_to_raw("2.5", 0), Ok("3".to_string()));
    assert_eq!(human_amount_to_raw("1.4", 0), Ok("1".to_string()));
    assert_eq!(human_amount_to_raw("1.235", 2), Ok("124".to_string()));
    assert_eq!(human_amount_to_raw("1.2345", 2), Ok("123".to_string()));
}

#[test]
fn convert_decimals_zero_is_integer_passthrough() {
    assert_eq!(human_amount_to_raw("7", 0), Ok("7".to_string()));
    assert_eq!(human_amount_to_raw("7.0", 0), Ok("7".to_string()));
}

#[test]
fn convert_trims_and_accepts_plus() {
    assert_eq!(human_amount_to_raw(" 12 ", 2), Ok("1200".to_string()));
    assert_eq!(human_amount_to_raw("+3.25", 2), Ok("325".to_string()));
    assert_eq!(human_amount_to_raw("\t0.5\n", 1), Ok("5".to_string()));
}

#[test]
fn convert_handles_dot_edges() {
    assert_eq!(human_amount_to_raw(".5", 1), Ok("5".to_string()));
    assert_eq!(human_amount_to_raw("5.", 1), Ok("50".to_string()));
}

#[test]
fn convert_rejects_malformed_shapes() {
    assert_eq!(human_amount_to_raw("", 6), Err(TxError::InvalidAmount));
    assert_eq!(human_amount_to_raw("   ", 6), Err(TxError::InvalidAmount));
    assert_eq!(human_amount_to_raw("+", 6), Err(TxError::InvalidAmount));
    assert_eq!(human_amount_to_raw(".", 6), Err(TxError::InvalidAmount));
    assert_eq!(human_amount_to_raw("1.2.3", 6), Err(TxError::InvalidAmount));
    assert_eq!(human_amount_to_raw("1e5", 6), Err(TxError::InvalidAmount));
    assert_eq!(human_amount_to_raw("1 2", 6), Err(TxError::InvalidAmount));
}

#[test]
fn convert_is_exact_beyond_floating_point() {
    // 2^53 + 1 is not representable in an f64; the digit-string computation
    // keeps it exact.
    assert_eq!(
        human_amount_to_raw("9007199254740993", 2),
        Ok("900719925474099300".to_string())
    );
    assert_eq!(
        human_amount_to_raw("123456789012345678901234567890.5", 3),
        Ok("123456789012345678901234567890500".to_string())
    );
}

#[test]
fn convert_strips_leading_zeros() {
    assert_eq!(human_amount_to_raw("007", 0), Ok("7".to_string()));
    assert_eq!(human_amount_to_raw("0.10", 1), Ok("1".to_string()));
    assert_eq!(human_amount_to_raw("0.04", 1), Ok("0".to_string()));
}

#[test]
fn convert_carry_propagates_through_nines() {
    assert_eq!(human_amount_to_raw("9.99999", 4), Ok("100000".to_string()));
    assert_eq!(human_amount_to_raw("0.99995", 4), Ok("10000".to_string()));
}

#[test]
fn raw_rendering_is_exact() {
    assert_eq!(raw_to_human("120000000", 6), Ok("120".to_string()));
    assert_eq!(raw_to_human("1", 6), Ok("0.000001".to_string()));
    assert_eq!(raw_to_human("1000001", 6), Ok("1.000001".to_string()));
    assert_eq!(raw_to_human("0", 3), Ok("0".to_string()));
    assert_eq!(raw_to_human("5", 0), Ok("5".to_string()));
    assert_eq!(raw_to_human("1500", 2), Ok("15".to_string()));
    assert_eq!(raw_to_human("12345678901234567890123", 4), Ok("1234567890123456789.0123".to_string()));
}

#[test]
fn raw_rendering_rejects_non_digits() {
    assert_eq!(raw_to_human("", 6), Err(TxError::InvalidAmount));
    assert_eq!(raw_to_human("12a", 6), Err(TxError::InvalidAmount));
    assert_eq!(raw_to_human("-5", 6), Err(TxError::InvalidAmount));
}

#[test]
fn rendering_then_converting_recovers_raw() {
    for (raw, decimals) in [("1000001", 6u8), ("1", 6), ("120000000", 6), ("999", 2), ("7", 0)] {
        let human = raw_to_human(raw, decimals).unwrap();
        assert_eq!(human_amount_to_raw(&human, decimals), Ok(raw.to_string()));
    }
}

#[test]
fn convert_round_trip_recovers_amount_within_tolerance() {
    // Re-parsing the result and dividing by 10^decimals recovers the input
    // to within half a minor unit.
    for (human, decimals) in [("1.25", 3u8), ("0.1", 6), ("42", 4), ("3.14159", 2)] {
        let raw: u128 = human_amount_to_raw(human, decimals)
            .unwrap()
            .parse()
            .unwrap();
        let expected: f64 = human.parse().unwrap();
        let recovered = raw as f64 / 10f64.powi(decimals as i32);
        assert!((recovered - expected).abs() <= 0.5 / 10f64.powi(decimals as i32));
    }
}
