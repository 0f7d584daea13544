//! Funding the miner's wallet and sending the payment: the amounts and the
//! block counts that the run uses, and what the node's answers hold.

use vstd::prelude::*;
use crate::json::{json_text, to_text};
use crate::amount::{amount_of_text, parse_amount};
use crate::extract::ExtractError;

verus! {

/// The confirmations after which a block's reward can be spent.
pub const MATURITY: u64 = 100;

/// What a consolidation leaves in the wallet to pay its fee: a hundredth of
/// a coin, in satoshis.
pub const FEE_RESERVE: u64 = 1_000_000;

/// The payment to the recipient: twenty coins, in satoshis.
pub const PAYMENT: u64 = 2_000_000_000;

/// The blocks to mine before the first reward can be spent: one for the
/// reward, and as many more as its maturity takes.
pub fn funding_blocks() -> (r: u64)
    ensures
        r == MATURITY + 1,
{
    MATURITY + 1
}

/// The amount that a consolidation sends: the balance less the fee reserve.
/// It is negative where the balance is below the reserve, and the node then
/// refuses it.
pub fn sweep_amount(balance: u64) -> (r: i128)
    ensures
        r == balance - FEE_RESERVE,
{
    balance as i128 - FEE_RESERVE as i128
}

/// Reads the balance that the node answered, in satoshis.
pub fn read_balance(answer: &serde_json::Value) -> (r: Result<u64, ExtractError>)
    ensures
        match r {
            Ok(b) => amount_of_text(json_text(*answer)) == Some(b),
            Err(e) => e == ExtractError::Malformed && amount_of_text(json_text(*answer)) is None,
        },
{
    let text = to_text(answer);
    match parse_amount(text.as_str()) {
        Some(b) => Ok(b),
        None => Err(ExtractError::Malformed),
    }
}

/// The hash of the last block that a mining call returned, nothing where it
/// returned none.
pub fn last_block(hashes: &Vec<String>) -> (r: Option<String>)
    ensures
        hashes@.len() == 0 ==> r is None,
        hashes@.len() > 0 ==> r == Some(hashes@[hashes@.len() - 1]),
{
    if hashes.len() > 0 {
        Some(hashes[hashes.len() - 1].clone())
    } else {
        None
    }
}

/// The transaction id of a payment that the node has sent, where the node
/// reports the payment as complete; nothing where it does not.
pub fn sent_txid(complete: bool, txid: String) -> (r: Option<String>)
    ensures
        complete ==> r == Some(txid),
        !complete ==> r is None,
{
    if complete {
        Some(txid)
    } else {
        None
    }
}

/// The hash of the block that confirmed a payment: the first of the hashes
/// that mining one block returned, nothing where the node returned none.
pub fn confirming_block(hashes: &Vec<String>) -> (r: Option<String>)
    ensures
        hashes@.len() == 0 ==> r is None,
        hashes@.len() > 0 ==> r == Some(hashes@[0]),
{
    if hashes.len() > 0 {
        Some(hashes[0].clone())
    } else {
        None
    }
}

} // verus!
