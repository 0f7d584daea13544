use tx_inspector::amount::{parse_amount, SATS_PER_COIN};

#[test]
fn whole_coins_without_a_point() {
    assert_eq!(parse_amount("20"), Some(2_000_000_000));
    assert_eq!(parse_amount("0"), Some(0));
    assert_eq!(parse_amount("1"), Some(SATS_PER_COIN));
}

#[test]
fn coins_with_places() {
    assert_eq!(parse_amount("20.0"), Some(2_000_000_000));
    assert_eq!(parse_amount("29.9999859"), Some(2_999_998_590));
    assert_eq!(parse_amount("0.00000001"), Some(1));
    assert_eq!(parse_amount("0.5"), Some(50_000_000));
    assert_eq!(parse_amount("50.00000000"), Some(5_000_000_000));
    assert_eq!(parse_amount("007.25"), Some(725_000_000));
}

#[test]
fn largest_amount_that_fits() {
    assert_eq!(parse_amount("184467440737.09551615"), Some(u64::MAX));
    assert_eq!(parse_amount("184467440737.09551616"), None);
    assert_eq!(parse_amount("184467440738"), None);
    assert_eq!(parse_amount("99999999999999999999999999"), None);
}

#[test]
fn text_that_is_no_amount() {
    assert_eq!(parse_amount(""), None);
    assert_eq!(parse_amount("."), None);
    assert_eq!(parse_amount(".5"), None);
    assert_eq!(parse_amount("1."), None);
    assert_eq!(parse_amount("1.2.3"), None);
    assert_eq!(parse_amount("-1.0"), None);
    assert_eq!(parse_amount("+1.0"), None);
    assert_eq!(parse_amount("1.0 "), None);
    assert_eq!(parse_amount("\"1.0\""), None);
    assert_eq!(parse_amount("null"), None);
    assert_eq!(parse_amount("1,5"), None);
}

#[test]
fn a_fraction_of_a_satoshi_is_refused() {
    assert_eq!(parse_amount("0.123456789"), None);
    assert_eq!(parse_amount("0.000000001"), None);
    assert_eq!(parse_amount("1e-9"), None);
    assert_eq!(parse_amount("0.12345678"), Some(12_345_678));
    assert_eq!(parse_amount("0.000000000"), Some(0));
    assert_eq!(parse_amount("0.100000000"), Some(10_000_000));
    assert_eq!(parse_amount("10e-9"), Some(1));
}

#[test]
fn amounts_with_an_exponent() {
    assert_eq!(parse_amount("1e-7"), Some(10));
    assert_eq!(parse_amount("1e-8"), Some(1));
    assert_eq!(parse_amount("5.46e-6"), Some(546));
    assert_eq!(parse_amount("2e1"), Some(2_000_000_000));
    assert_eq!(parse_amount("2e+1"), Some(2_000_000_000));
    assert_eq!(parse_amount("1.5E+2"), Some(15_000_000_000));
    assert_eq!(parse_amount("2000e-2"), Some(2_000_000_000));
    assert_eq!(parse_amount("1e0"), Some(SATS_PER_COIN));
    assert_eq!(parse_amount("18446744073709551615e-8"), Some(u64::MAX));
    assert_eq!(parse_amount("1844674407370955161.5e-7"), Some(u64::MAX));
    assert_eq!(parse_amount("1.8446744073709551615e11"), Some(u64::MAX));
    assert_eq!(parse_amount("1.8446744073709551616e11"), None);
    assert_eq!(parse_amount("1e16"), None);
    assert_eq!(parse_amount("1e12"), None);
    assert_eq!(parse_amount("1e11"), Some(10_000_000_000_000_000_000));
}

#[test]
fn exponents_of_any_size() {
    assert_eq!(parse_amount("0e99999999999999999999999999999999999999999999"), Some(0));
    assert_eq!(parse_amount("0.00e-99999999999999999999999999999999999999999"), Some(0));
    assert_eq!(parse_amount("1e99999999999999999999999999999999999999999999"), None);
    assert_eq!(parse_amount("1e-99999999999999999999999999999999999999999999"), None);
    assert_eq!(parse_amount("0e1208925819614629174706176"), Some(0));
    assert_eq!(parse_amount("7e1208925819614629174706175"), None);
    assert_eq!(parse_amount("0e-340282366920938463463374607431768211456"), Some(0));
}

#[test]
fn exponent_that_is_not_complete() {
    assert_eq!(parse_amount("1e"), None);
    assert_eq!(parse_amount("1e-"), None);
    assert_eq!(parse_amount("1e+"), None);
    assert_eq!(parse_amount("e5"), None);
    assert_eq!(parse_amount("1.e5"), None);
    assert_eq!(parse_amount("1e5x"), None);
    assert_eq!(parse_amount("1e1.0"), None);
    assert_eq!(parse_amount("1e--1"), None);
    assert_eq!(parse_amount("1x5"), None);
}
