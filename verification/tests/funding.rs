use serde_json::Value;
use tx_inspector::extract::ExtractError;
use tx_inspector::funding::{
    confirming_block, funding_blocks, last_block, read_balance, sent_txid, sweep_amount,
    FEE_RESERVE, MATURITY, PAYMENT,
};

fn hashes(list: &[&str]) -> Vec<String> {
    list.iter().map(|s| s.to_string()).collect()
}

fn number(text: &str) -> Value {
    serde_json::from_str(text).unwrap()
}

#[test]
fn blocks_until_the_first_reward_matures() {
    assert_eq!(MATURITY, 100);
    assert_eq!(funding_blocks(), 101);
}

#[test]
fn sweep_is_balance_less_reserve() {
    assert_eq!(FEE_RESERVE, 1_000_000);
    assert_eq!(sweep_amount(5_000_000_000), 4_999_000_000);
    assert_eq!(sweep_amount(1_000_000), 0);
    assert_eq!(sweep_amount(0), -1_000_000);
    assert_eq!(sweep_amount(u64::MAX), u64::MAX as i128 - 1_000_000);
}

#[test]
fn payment_is_twenty_coins() {
    assert_eq!(PAYMENT, 20 * 100_000_000);
}

#[test]
fn balance_from_the_answer() {
    assert_eq!(read_balance(&number("50.00000000")), Ok(5_000_000_000));
    assert_eq!(read_balance(&number("0")), Ok(0));
    assert_eq!(read_balance(&number("0.00000999")), Ok(999));
    assert_eq!(read_balance(&number("-1.5")), Err(ExtractError::Malformed));
    assert_eq!(read_balance(&number("null")), Err(ExtractError::Malformed));
    assert_eq!(read_balance(&number("[50.0]")), Err(ExtractError::Malformed));
}

#[test]
fn last_block_is_the_last_hash() {
    assert_eq!(last_block(&hashes(&["h1", "h2", "h3"])), Some("h3".to_string()));
    assert_eq!(last_block(&hashes(&["only"])), Some("only".to_string()));
    assert_eq!(last_block(&Vec::new()), None);
}

#[test]
fn payment_txid_only_where_complete() {
    assert_eq!(sent_txid(true, "abcd".to_string()), Some("abcd".to_string()));
    assert_eq!(sent_txid(false, "abcd".to_string()), None);
}

#[test]
fn confirming_block_is_the_first_hash() {
    assert_eq!(confirming_block(&hashes(&["h1", "h2"])), Some("h1".to_string()));
    assert_eq!(confirming_block(&hashes(&["only"])), Some("only".to_string()));
    assert_eq!(confirming_block(&Vec::new()), None);
}
