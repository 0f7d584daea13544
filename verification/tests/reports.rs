use tx_inspector::extract::Extraction;
use tx_inspector::report::{format_amount, format_count, format_fixed, report_lines, REPORT_LINES};

#[test]
fn amounts_in_coins() {
    assert_eq!(format_amount(2_000_000_000), "20");
    assert_eq!(format_amount(0), "0");
    assert_eq!(format_amount(1), "0.00000001");
    assert_eq!(format_amount(2_999_998_590), "29.9999859");
    assert_eq!(format_amount(4_999_999_000), "49.99999");
    assert_eq!(format_amount(50_000_000), "0.5");
    assert_eq!(format_amount(100_000_000), "1");
    assert_eq!(format_amount(1_010_000_000), "10.1");
    assert_eq!(format_amount(u64::MAX), "184467440737.09551615");
}

#[test]
fn fee_with_eight_places() {
    assert_eq!(format_fixed(410), "0.00000410");
    assert_eq!(format_fixed(0), "0.00000000");
    assert_eq!(format_fixed(-410), "-0.00000410");
    assert_eq!(format_fixed(100_000_000), "1.00000000");
    assert_eq!(format_fixed(-2_150_000_000), "-21.50000000");
    assert_eq!(format_fixed(12_345_678_901), "123.45678901");
    assert_eq!(
        format_fixed(i128::MIN),
        "-1701411834604692317316873037158.84105728"
    );
    assert_eq!(
        format_fixed(i128::MAX),
        "1701411834604692317316873037158.84105727"
    );
}

#[test]
fn counts_in_decimal() {
    assert_eq!(format_count(0), "0");
    assert_eq!(format_count(9), "9");
    assert_eq!(format_count(10), "10");
    assert_eq!(format_count(103), "103");
    assert_eq!(format_count(u64::MAX), "18446744073709551615");
}

#[test]
fn report_has_ten_lines_in_order() {
    let x = Extraction {
        txid: "aa11".to_string(),
        input_address: "bcrt1qfunds".to_string(),
        input_amount: 4_999_999_000,
        recipient_address: "bcrt1qtrader".to_string(),
        recipient_amount: 2_000_000_000,
        change_address: "bcrt1qchange".to_string(),
        change_amount: 2_999_998_590,
        fee: 410,
        block_height: 103,
        block_hash: "00ff".to_string(),
    };
    let lines = report_lines(&x);
    assert_eq!(lines.len(), REPORT_LINES);
    assert_eq!(
        lines,
        vec![
            "aa11",
            "bcrt1qfunds",
            "49.99999",
            "bcrt1qtrader",
            "20",
            "bcrt1qchange",
            "29.9999859",
            "0.00000410",
            "103",
            "00ff",
        ]
    );
}
