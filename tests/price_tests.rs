use karbige::price::parse_price;

#[test]
fn whole_price_is_scaled() {
    assert_eq!(parse_price("100"), Some(10_000_000_000));
    assert_eq!(parse_price("0"), Some(0));
}

#[test]
fn fractional_price_is_scaled() {
    assert_eq!(parse_price("100.5"), Some(10_050_000_000));
    assert_eq!(parse_price(".5"), Some(50_000_000));
    assert_eq!(parse_price("7."), Some(700_000_000));
}

#[test]
fn extra_fraction_digits_are_dropped() {
    assert_eq!(parse_price("0.123456789"), Some(12_345_678));
}

#[test]
fn malformed_price_is_rejected() {
    assert_eq!(parse_price(""), None);
    assert_eq!(parse_price("."), None);
    assert_eq!(parse_price("abc"), None);
    assert_eq!(parse_price("1.2.3"), None);
    assert_eq!(parse_price("-5"), None);
}

#[test]
fn largest_price_fits_and_one_more_does_not() {
    assert_eq!(parse_price("184467440737.09551615"), Some(u64::MAX));
    assert_eq!(parse_price("184467440737.09551616"), None);
    assert_eq!(parse_price("99999999999999999999"), None);
}

#[test]
fn exponent_price_is_scaled() {
    assert_eq!(parse_price("1e5"), Some(10_000_000_000_000));
    assert_eq!(parse_price("1E5"), Some(10_000_000_000_000));
    assert_eq!(parse_price("1.5e+2"), Some(15_000_000_000));
    assert_eq!(parse_price("2.5e-3"), Some(250_000));
    assert_eq!(parse_price("6.6e-34"), Some(0));
    assert_eq!(parse_price("1e-8"), Some(1));
    assert_eq!(parse_price("0e99999999999999999999999"), Some(0));
}

#[test]
fn exponent_too_large_is_rejected() {
    assert_eq!(parse_price("1e16"), None);
    assert_eq!(parse_price("1e99999999999999999999999"), None);
    assert_eq!(parse_price("1.8e11"), Some(18_000_000_000_000_000_000));
}

#[test]
fn leading_plus_is_accepted() {
    assert_eq!(parse_price("+5"), Some(500_000_000));
    assert_eq!(parse_price("+"), None);
    assert_eq!(parse_price("++5"), None);
}

#[test]
fn malformed_exponent_is_rejected() {
    assert_eq!(parse_price("1e"), None);
    assert_eq!(parse_price("1e+"), None);
    assert_eq!(parse_price("e5"), None);
    assert_eq!(parse_price("1e5e5"), None);
    assert_eq!(parse_price("1e5.0"), None);
}
