use std::cmp::Ordering;

use twine_daemon::amount::{
    add_ckb, amount_to_shannon, ckb_from_fiat, cmp_ckb, fiat_from_ckb, format_decimal_8, hex_u128,
    hex_u64, normalize_amount, normalize_decimal, normalize_hex, parse_decimal_8, subtract_ckb,
};

#[test]
fn amount_one_ckb_is_hex_shannon() {
    assert_eq!(amount_to_shannon("1").unwrap(), 0x5f5e100);
    assert_eq!(hex_u128(amount_to_shannon("1").unwrap()), "0x5f5e100");
}

#[test]
fn rejects_empty_zero_and_too_precise_amounts() {
    assert!(normalize_amount("").is_err());
    assert!(normalize_amount("0").is_err());
    assert!(normalize_amount("0.0").is_err());
    assert!(normalize_amount("1.123456789").is_err());
    assert_eq!(normalize_amount("0.00000001").as_deref(), Ok("0.00000001"));
}

#[test]
fn fiat_over_rate_is_integer_shannon_ckb() {
    assert_eq!(ckb_from_fiat("2000", "2000").as_deref(), Ok("1"));
    assert_eq!(ckb_from_fiat("1000", "2000").as_deref(), Ok("0.5"));
    assert_eq!(fiat_from_ckb("1", "2000").as_deref(), Ok("2000"));
    assert_eq!(fiat_from_ckb("0.5", "2000").as_deref(), Ok("1000"));
    assert!(ckb_from_fiat("1", "200000000000").is_err());
    assert!(ckb_from_fiat("10", "0").is_err());
}

#[test]
fn format_then_parse_gives_the_amount_back() {
    for v in [0u128, 1, 10, 99_999_999, 100_000_000, 150_000_000, 123_456_789_012, u128::MAX] {
        assert_eq!(parse_decimal_8(&format_decimal_8(v)), Ok(v));
    }
}

#[test]
fn formats_with_trimmed_fraction() {
    assert_eq!(format_decimal_8(0), "0");
    assert_eq!(format_decimal_8(100_000_000), "1");
    assert_eq!(format_decimal_8(150_000_000), "1.5");
    assert_eq!(format_decimal_8(1), "0.00000001");
    assert_eq!(format_decimal_8(1_234_500_000), "12.345");
}

#[test]
fn parses_decimal_amounts_to_shannon_units() {
    assert_eq!(parse_decimal_8(" 1.5 "), Ok(150_000_000));
    assert_eq!(parse_decimal_8("007"), Ok(700_000_000));
    assert_eq!(parse_decimal_8("0.00000001"), Ok(1));
    assert_eq!(parse_decimal_8("3."), Ok(300_000_000));
    assert_eq!(parse_decimal_8("").unwrap_err(), "amount is required");
    assert_eq!(parse_decimal_8(".5").unwrap_err(), "amount must be a positive number");
    assert_eq!(parse_decimal_8("-1").unwrap_err(), "amount must be a positive number");
    assert_eq!(parse_decimal_8("1.2.3").unwrap_err(), "amount must be a positive number");
    assert_eq!(
        parse_decimal_8("1.123456789").unwrap_err(),
        "amount supports at most 8 decimal places"
    );
    assert_eq!(
        parse_decimal_8("99999999999999999999999999999999999").unwrap_err(),
        "amount is too large"
    );
}

#[test]
fn normalizes_to_canonical_text() {
    assert_eq!(normalize_decimal(" 007.500 ").as_deref(), Ok("7.5"));
    assert_eq!(normalize_decimal("0.000").as_deref(), Ok("0"));
    assert_eq!(normalize_decimal("12").as_deref(), Ok("12"));
    assert_eq!(normalize_amount("0").unwrap_err(), "amount must be greater than zero");
    assert_eq!(normalize_amount(" 2.50 ").as_deref(), Ok("2.5"));
}

#[test]
fn zero_amount_is_refused_in_shannon() {
    assert_eq!(amount_to_shannon("0").unwrap_err(), "amount must be greater than zero");
    assert_eq!(amount_to_shannon("0.5"), Ok(50_000_000));
}

#[test]
fn fiat_conversion_errors() {
    assert_eq!(ckb_from_fiat("1", "0").unwrap_err(), "rate must be greater than zero");
    assert_eq!(
        ckb_from_fiat("1", "200000000000").unwrap_err(),
        "fiat amount is too small for this rate"
    );
    assert_eq!(ckb_from_fiat("3000", "2000").as_deref(), Ok("1.5"));
    assert_eq!(fiat_from_ckb("1.5", "2000").as_deref(), Ok("3000"));
    assert_eq!(fiat_from_ckb("1", "0").unwrap_err(), "rate must be greater than zero");
}

#[test]
fn adds_subtracts_and_compares_amounts() {
    assert_eq!(add_ckb("1.5", "0.5").as_deref(), Ok("2"));
    assert_eq!(subtract_ckb("2", "0.5").as_deref(), Ok("1.5"));
    assert_eq!(subtract_ckb("2", "2").as_deref(), Ok("0"));
    assert_eq!(subtract_ckb("1", "2").unwrap_err(), "not enough CKB available");
    assert_eq!(cmp_ckb("1.0", "1"), Ok(Ordering::Equal));
    assert_eq!(cmp_ckb("0.5", "1"), Ok(Ordering::Less));
    assert_eq!(cmp_ckb("2", "1.99999999"), Ok(Ordering::Greater));
    assert!(cmp_ckb("x", "1").is_err());
}

#[test]
fn hex_forms() {
    assert_eq!(hex_u128(0), "0x0");
    assert_eq!(hex_u128(255), "0xff");
    assert_eq!(hex_u64(57_600_000), "0x36ee800");
    assert_eq!(normalize_hex(" 0x036EE800 "), "36ee800");
    assert_eq!(normalize_hex("0X00ff"), "ff");
}

#[test]
fn normalize_is_idempotent_and_keeps_the_value() {
    for raw in [" 007.500 ", "0.000", "12", "3.", "0.00000001", "1000.10"] {
        let once = normalize_decimal(raw).unwrap();
        assert_eq!(normalize_decimal(&once).as_deref(), Ok(once.as_str()));
        assert_eq!(parse_decimal_8(&once), parse_decimal_8(raw));
    }
}

#[test]
fn formatted_amounts_are_canonical() {
    for v in [0u128, 7, 150_000_000, 1_234_500_000, u128::MAX] {
        let text = format_decimal_8(v);
        assert_eq!(normalize_decimal(&text).as_deref(), Ok(text.as_str()));
    }
    for raw in [" 007.500 ", "0.000", "3.", "12.34000000"] {
        let v = parse_decimal_8(raw).unwrap();
        assert_eq!(format_decimal_8(v), normalize_decimal(raw).unwrap());
    }
}

#[test]
fn fiat_to_ckb_and_back_never_gains() {
    for (fiat, rate) in [("1000", "3"), ("2000", "2000"), ("0.00000007", "0.3"), ("1", "7")] {
        let ckb = ckb_from_fiat(fiat, rate).unwrap();
        let back = fiat_from_ckb(&ckb, rate).unwrap();
        assert!(parse_decimal_8(&back).unwrap() <= parse_decimal_8(fiat).unwrap());
    }
    assert_eq!(fiat_from_ckb(&ckb_from_fiat("1000", "3").unwrap(), "3").as_deref(), Ok("999.99999999"));
}
