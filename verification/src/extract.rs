//! Reading a confirmed payment out of the node's JSON documents.
//!
//! Three documents describe the payment: the decoded transaction, the
//! transaction that its single input spends, and the block that confirmed it.
//! Reading is strict: a field that is absent or of the wrong kind ends the
//! extraction with an error, and no amount is ever replaced by a default.

use vstd::prelude::*;
use crate::json::{json_member, json_string, json_unsigned, json_elements, json_text};
use crate::json::{member, as_string, as_unsigned, as_elements, to_text};
use crate::amount::{amount_of_text, parse_amount};

verus! {

/// Why an extraction ended without a result.
#[derive(Debug, Clone, Copy, PartialEq, Eq)]
pub enum ExtractError {
    /// A field that the extraction reads is absent or of the wrong kind.
    Malformed,
    /// The transaction does not have exactly one input.
    InputCount,
    /// The outputs together are worth more than 64 bits of satoshis.
    AmountRange,
}

/// One output of a transaction: its value in satoshis and the address that
/// owns it, empty where the output names none.
#[derive(Debug, Clone, PartialEq, Eq)]
pub struct TxOutput {
    pub value: u64,
    pub address: String,
}

pub ghost struct OutputModel {
    pub value: u64,
    pub address: Seq<char>,
}

impl View for TxOutput {
    type V = OutputModel;

    open spec fn view(&self) -> OutputModel {
        OutputModel { value: self.value, address: self.address@ }
    }
}

/// The earlier output that the single input of a transaction spends.
#[derive(Debug, Clone, PartialEq, Eq)]
pub struct InputRef {
    pub txid: String,
    pub index: u64,
}

pub ghost struct InputRefModel {
    pub txid: Seq<char>,
    pub index: u64,
}

impl View for InputRef {
    type V = InputRefModel;

    open spec fn view(&self) -> InputRefModel {
        InputRefModel { txid: self.txid@, index: self.index }
    }
}

/// What a payment did: where its funds came from, what the recipient got,
/// what went back as change, and what was left to the block's producer.
#[derive(Debug, Clone, PartialEq, Eq)]
pub struct Extraction {
    pub txid: String,
    pub input_address: String,
    pub input_amount: u64,
    pub recipient_address: String,
    pub recipient_amount: u64,
    pub change_address: String,
    pub change_amount: u64,
    pub fee: i128,
    pub block_height: u64,
    pub block_hash: String,
}

pub ghost struct ExtractionModel {
    pub txid: Seq<char>,
    pub input_address: Seq<char>,
    pub input_amount: u64,
    pub recipient_address: Seq<char>,
    pub recipient_amount: u64,
    pub change_address: Seq<char>,
    pub change_amount: u64,
    pub fee: int,
    pub block_height: u64,
    pub block_hash: Seq<char>,
}

impl View for Extraction {
    type V = ExtractionModel;

    open spec fn view(&self) -> ExtractionModel {
        ExtractionModel {
            txid: self.txid@,
            input_address: self.input_address@,
            input_amount: self.input_amount,
            recipient_address: self.recipient_address@,
            recipient_amount: self.recipient_amount,
            change_address: self.change_address@,
            change_amount: self.change_amount,
            fee: self.fee as int,
            block_height: self.block_height,
            block_hash: self.block_hash@,
        }
    }
}

pub open spec fn text_of(o: Option<String>) -> Option<Seq<char>> {
    match o {
        Some(s) => Some(s@),
        None => None,
    }
}

pub open spec fn output_model_of(o: Option<TxOutput>) -> Option<OutputModel> {
    match o {
        Some(x) => Some(x@),
        None => None,
    }
}

/// The models of a sequence of outputs, in the same order.
pub open spec fn models(s: Seq<TxOutput>) -> Seq<OutputModel> {
    Seq::new(s.len(), |i: int| s[i]@)
}

// ---------------------------------------------------------------------------
// What the documents say
// ---------------------------------------------------------------------------

/// The string under `key`, where `v` has that member and it is a string.
pub open spec fn lookup_string(v: serde_json::Value, key: Seq<char>) -> Option<Seq<char>> {
    match json_member(v, key) {
        Some(m) => json_string(m),
        None => None,
    }
}

/// The number under `key`, where `v` has that member and it is a whole
/// number of 64 bits without a sign.
pub open spec fn lookup_unsigned(v: serde_json::Value, key: Seq<char>) -> Option<u64> {
    match json_member(v, key) {
        Some(m) => json_unsigned(m),
        None => None,
    }
}

/// The elements under `key`, where `v` has that member and it is an array.
pub open spec fn lookup_elements(v: serde_json::Value, key: Seq<char>) -> Option<
    Seq<serde_json::Value>,
> {
    match json_member(v, key) {
        Some(m) => json_elements(m),
        None => None,
    }
}

/// The address of a script descriptor: its `address` where that is a string,
/// else the first of its `addresses` where that is a string.
pub open spec fn script_address(spk: serde_json::Value) -> Option<Seq<char>> {
    match lookup_string(spk, "address"@) {
        Some(a) => Some(a),
        None => match lookup_elements(spk, "addresses"@) {
            Some(es) => if es.len() > 0 {
                json_string(es[0])
            } else {
                None
            },
            None => None,
        },
    }
}

/// The address that owns an output entry, where it names one.
pub open spec fn output_address(out: serde_json::Value) -> Option<Seq<char>> {
    match json_member(out, "scriptPubKey"@) {
        Some(spk) => script_address(spk),
        None => None,
    }
}

/// The value of an output entry in satoshis, where it has a `value` that
/// reads as an amount.
pub open spec fn output_value(out: serde_json::Value) -> Option<u64> {
    match json_member(out, "value"@) {
        Some(m) => amount_of_text(json_text(m)),
        None => None,
    }
}

/// An output entry as an output; `unnamed` stands for the address where the
/// entry names none. Nothing where the entry has no readable value.
pub open spec fn output_of(out: serde_json::Value, unnamed: Seq<char>) -> Option<OutputModel> {
    match output_value(out) {
        Some(v) => Some(
            OutputModel {
                value: v,
                address: match output_address(out) {
                    Some(a) => a,
                    None => unnamed,
                },
            },
        ),
        None => None,
    }
}

/// The outputs of a decoded transaction, in order, an empty address standing
/// for an output that names none. Nothing where `vout` is no array or one of
/// its entries has no readable value.
pub open spec fn outputs_of(decoded: serde_json::Value) -> Option<Seq<OutputModel>> {
    match lookup_elements(decoded, "vout"@) {
        Some(es) => if forall|i: int|
            0 <= i < es.len() ==> (#[trigger] output_of(es[i], Seq::empty())) is Some {
            Some(Seq::new(es.len(), |i: int| output_of(es[i], Seq::empty()).unwrap()))
        } else {
            None
        },
        None => None,
    }
}

/// The output that the single input of a decoded transaction spends.
pub open spec fn input_ref_of(decoded: serde_json::Value) -> Result<InputRefModel, ExtractError> {
    match lookup_elements(decoded, "vin"@) {
        None => Err(ExtractError::Malformed),
        Some(es) => if es.len() != 1 {
            Err(ExtractError::InputCount)
        } else {
            match (lookup_string(es[0], "txid"@), lookup_unsigned(es[0], "vout"@)) {
                (Some(t), Some(n)) => Ok(InputRefModel { txid: t, index: n }),
                _ => Err(ExtractError::Malformed),
            }
        },
    }
}

/// The entry at `index` among the outputs of the funding transaction.
pub open spec fn funding_entry(funding_tx: serde_json::Value, index: u64) -> Option<
    serde_json::Value,
> {
    match lookup_elements(funding_tx, "vout"@) {
        Some(es) => if index < es.len() {
            Some(es[index as int])
        } else {
            None
        },
        None => None,
    }
}

/// The funding output: the entry at `index` of the funding transaction, its
/// address written as `<unknown address>` where the entry names none.
pub open spec fn funding_of(funding_tx: serde_json::Value, index: u64) -> Option<OutputModel> {
    match funding_entry(funding_tx, index) {
        Some(e) => output_of(e, "<unknown address>"@),
        None => None,
    }
}

// ---------------------------------------------------------------------------
// Attribution
// ---------------------------------------------------------------------------

/// What the recipient got: the value of the last output owned by
/// `recipient`, zero where there is none.
pub open spec fn recipient_amount(outs: Seq<OutputModel>, recipient: Seq<char>) -> u64
    decreases outs.len(),
{
    if outs.len() == 0 {
        0
    } else if outs.last().address == recipient {
        outs.last().value
    } else {
        recipient_amount(outs.drop_last(), recipient)
    }
}

/// Whether an output is change: it names an address, and not the recipient's.
pub open spec fn is_remainder(o: OutputModel, recipient: Seq<char>) -> bool {
    o.address != recipient && o.address.len() > 0
}

/// The change: the last output that is change, or an empty address with the
/// value zero where there is none.
pub open spec fn remainder(outs: Seq<OutputModel>, recipient: Seq<char>) -> OutputModel
    decreases outs.len(),
{
    if outs.len() == 0 {
        OutputModel { value: 0, address: Seq::empty() }
    } else if is_remainder(outs.last(), recipient) {
        outs.last()
    } else {
        remainder(outs.drop_last(), recipient)
    }
}

/// The satoshis of all outputs together.
pub open spec fn total_value(outs: Seq<OutputModel>) -> nat
    decreases outs.len(),
{
    if outs.len() == 0 {
        0
    } else {
        total_value(outs.drop_last()) + outs.last().value as nat
    }
}

/// The result for a payment whose documents have been read: the fee is the
/// funding amount less all outputs. An error where the outputs together
/// exceed 64 bits.
pub open spec fn attributed(
    txid: Seq<char>,
    funding: OutputModel,
    outs: Seq<OutputModel>,
    recipient: Seq<char>,
    block_height: u64,
    block_hash: Seq<char>,
) -> Result<ExtractionModel, ExtractError> {
    if total_value(outs) > u64::MAX {
        Err(ExtractError::AmountRange)
    } else {
        Ok(
            ExtractionModel {
                txid: txid,
                input_address: funding.address,
                input_amount: funding.value,
                recipient_address: recipient,
                recipient_amount: recipient_amount(outs, recipient),
                change_address: remainder(outs, recipient).address,
                change_amount: remainder(outs, recipient).value,
                fee: funding.value - total_value(outs),
                block_height: block_height,
                block_hash: block_hash,
            },
        )
    }
}

/// The result of a whole extraction. The block's height is read first, then
/// the input, then the funding output, then the outputs; the first of them
/// that cannot be read decides the error.
pub open spec fn extraction_of(
    txid: Seq<char>,
    decoded: serde_json::Value,
    funding_tx: serde_json::Value,
    block: serde_json::Value,
    recipient: Seq<char>,
    block_hash: Seq<char>,
) -> Result<ExtractionModel, ExtractError> {
    match lookup_unsigned(block, "height"@) {
        None => Err(ExtractError::Malformed),
        Some(h) => match input_ref_of(decoded) {
            Err(e) => Err(e),
            Ok(input) => match funding_of(funding_tx, input.index) {
                None => Err(ExtractError::Malformed),
                Some(f) => match outputs_of(decoded) {
                    None => Err(ExtractError::Malformed),
                    Some(outs) => attributed(txid, f, outs, recipient, h, block_hash),
                },
            },
        },
    }
}

// ---------------------------------------------------------------------------
// Reading
// ---------------------------------------------------------------------------

fn read_string(v: &serde_json::Value) -> (r: Option<String>)
    ensures
        text_of(r) == json_string(*v),
{
    match as_string(v) {
        Some(s) => Some(s.to_owned()),
        None => None,
    }
}

fn find_string(v: &serde_json::Value, key: &str) -> (r: Option<String>)
    ensures
        text_of(r) == lookup_string(*v, key@),
{
    match member(v, key) {
        Some(m) => read_string(m),
        None => None,
    }
}

fn find_unsigned(v: &serde_json::Value, key: &str) -> (r: Option<u64>)
    ensures
        r == lookup_unsigned(*v, key@),
{
    match member(v, key) {
        Some(m) => as_unsigned(m),
        None => None,
    }
}

fn find_elements<'a>(v: &'a serde_json::Value, key: &str) -> (r: Option<&'a Vec<serde_json::Value>>)
    ensures
        match r {
            Some(es) => lookup_elements(*v, key@) == Some(es@),
            None => lookup_elements(*v, key@) is None,
        },
{
    match member(v, key) {
        Some(m) => as_elements(m),
        None => None,
    }
}

/// Reads the address of a script descriptor, from `address` or, in the older
/// form, from the first of `addresses`.
pub fn read_script_address(spk: &serde_json::Value) -> (r: Option<String>)
    ensures
        text_of(r) == script_address(*spk),
{
    match find_string(spk, "address") {
        Some(a) => Some(a),
        None => match find_elements(spk, "addresses") {
            Some(es) => if es.len() > 0 {
                read_string(&es[0])
            } else {
                None
            },
            None => None,
        },
    }
}

/// Reads one output entry. The address is `unnamed` where the entry names
/// none; there is no output where the entry has no readable value.
pub fn read_output(out: &serde_json::Value, unnamed: &str) -> (r: Option<TxOutput>)
    ensures
        output_model_of(r) == output_of(*out, unnamed@),
{
    let value = match member(out, "value") {
        Some(m) => {
            let text = to_text(m);
            parse_amount(text.as_str())
        },
        None => None,
    };
    match value {
        None => None,
        Some(v) => {
            let named = match member(out, "scriptPubKey") {
                Some(spk) => read_script_address(spk),
                None => None,
            };
            let address = match named {
                Some(a) => a,
                None => unnamed.to_owned(),
            };
            Some(TxOutput { value: v, address: address })
        },
    }
}

/// Reads all outputs of a decoded transaction, in order.
pub fn read_outputs(decoded: &serde_json::Value) -> (r: Result<Vec<TxOutput>, ExtractError>)
    ensures
        match r {
            Ok(outs) => outputs_of(*decoded) == Some(models(outs@)),
            Err(e) => e == ExtractError::Malformed && outputs_of(*decoded) is None,
        },
{
    let es = match find_elements(decoded, "vout") {
        Some(es) => es,
        None => {
            return Err(ExtractError::Malformed);
        },
    };
    let mut outs: Vec<TxOutput> = Vec::new();
    let mut i: usize = 0;
    while i < es.len()
        invariant
            i <= es.len(),
            outs.len() == i,
            lookup_elements(*decoded, "vout"@) == Some(es@),
            forall|j: int|
                0 <= j < i ==> (#[trigger] output_of(es@[j], Seq::empty())) == Some(outs@[j]@),
        decreases es.len() - i,
    {
        match read_output(&es[i], "") {
            Some(o) => {
                proof {
                    reveal_strlit("");
                    assert(""@ =~= Seq::<char>::empty());
                }
                outs.push(o);
            },
            None => {
                proof {
                    reveal_strlit("");
                    assert(""@ =~= Seq::<char>::empty());
                    assert(output_of(es@[i as int], Seq::empty()) is None);
                }
                return Err(ExtractError::Malformed);
            },
        }
        i = i + 1;
    }
    proof {
        assert(Seq::new(es@.len(), |i: int| output_of(es@[i], Seq::empty()).unwrap()) =~= models(
            outs@,
        ));
    }
    Ok(outs)
}

/// Reads which earlier output the single input of a decoded transaction
/// spends. A transaction with no input, or with more than one, is refused.
pub fn read_input_ref(decoded: &serde_json::Value) -> (r: Result<InputRef, ExtractError>)
    ensures
        match r {
            Ok(x) => input_ref_of(*decoded) == Ok::<InputRefModel, ExtractError>(x@),
            Err(e) => input_ref_of(*decoded) == Err::<InputRefModel, ExtractError>(e),
        },
{
    let es = match find_elements(decoded, "vin") {
        Some(es) => es,
        None => {
            return Err(ExtractError::Malformed);
        },
    };
    if es.len() != 1 {
        return Err(ExtractError::InputCount);
    }
    let txid = find_string(&es[0], "txid");
    let index = find_unsigned(&es[0], "vout");
    match (txid, index) {
        (Some(t), Some(n)) => Ok(InputRef { txid: t, index: n }),
        _ => Err(ExtractError::Malformed),
    }
}

/// Reads the funding output: the entry at `index` of the transaction that
/// the input spends.
pub fn read_funding(funding_tx: &serde_json::Value, index: u64) -> (r: Result<
    TxOutput,
    ExtractError,
>)
    ensures
        match r {
            Ok(o) => funding_of(*funding_tx, index) == Some(o@),
            Err(e) => e == ExtractError::Malformed && funding_of(*funding_tx, index) is None,
        },
{
    let es = match find_elements(funding_tx, "vout") {
        Some(es) => es,
        None => {
            return Err(ExtractError::Malformed);
        },
    };
    if index >= es.len() as u64 {
        return Err(ExtractError::Malformed);
    }
    match read_output(&es[index as usize], "<unknown address>") {
        Some(o) => Ok(o),
        None => Err(ExtractError::Malformed),
    }
}

/// Reads the height of a block.
pub fn read_height(block: &serde_json::Value) -> (r: Result<u64, ExtractError>)
    ensures
        match r {
            Ok(h) => lookup_unsigned(*block, "height"@) == Some(h),
            Err(e) => e == ExtractError::Malformed && lookup_unsigned(*block, "height"@) is None,
        },
{
    match find_unsigned(block, "height") {
        Some(h) => Ok(h),
        None => Err(ExtractError::Malformed),
    }
}

/// Reads the raw encoding of a wallet transaction, as hexadecimal text.
pub fn read_raw_hex(tx: &serde_json::Value) -> (r: Result<String, ExtractError>)
    ensures
        match r {
            Ok(h) => lookup_string(*tx, "hex"@) == Some(h@),
            Err(e) => e == ExtractError::Malformed && lookup_string(*tx, "hex"@) is None,
        },
{
    match find_string(tx, "hex") {
        Some(h) => Ok(h),
        None => Err(ExtractError::Malformed),
    }
}

pub open spec fn agrees(
    r: Result<Extraction, ExtractError>,
    m: Result<ExtractionModel, ExtractError>,
) -> bool {
    match r {
        Ok(x) => m == Ok::<ExtractionModel, ExtractError>(x@),
        Err(e) => m == Err::<ExtractionModel, ExtractError>(e),
    }
}

// ---------------------------------------------------------------------------
// Attributing
// ---------------------------------------------------------------------------

/// What the recipient got from these outputs.
pub fn recipient_share(outputs: &Vec<TxOutput>, recipient: &String) -> (r: u64)
    ensures
        r == recipient_amount(models(outputs@), recipient@),
{
    let ghost all = models(outputs@);
    let mut got: u64 = 0;
    let mut i: usize = 0;
    while i < outputs.len()
        invariant
            i <= outputs.len(),
            all == models(outputs@),
            got == recipient_amount(all.subrange(0, i as int), recipient@),
        decreases outputs.len() - i,
    {
        proof {
            assert(all.subrange(0, i + 1).drop_last() =~= all.subrange(0, i as int));
        }
        if outputs[i].address == *recipient {
            got = outputs[i].value;
        }
        i = i + 1;
    }
    proof {
        assert(all.subrange(0, i as int) =~= all);
    }
    got
}

/// The change among these outputs.
pub fn change_share(outputs: &Vec<TxOutput>, recipient: &String) -> (r: TxOutput)
    ensures
        r@ == remainder(models(outputs@), recipient@),
{
    let ghost all = models(outputs@);
    let mut change = TxOutput { value: 0, address: String::new() };
    let mut i: usize = 0;
    while i < outputs.len()
        invariant
            i <= outputs.len(),
            all == models(outputs@),
            change@ == remainder(all.subrange(0, i as int), recipient@),
        decreases outputs.len() - i,
    {
        proof {
            assert(all.subrange(0, i + 1).drop_last() =~= all.subrange(0, i as int));
        }
        let o = &outputs[i];
        if o.address != *recipient && !o.address.as_str().is_empty() {
            change = TxOutput { value: o.value, address: o.address.clone() };
        }
        i = i + 1;
    }
    proof {
        assert(all.subrange(0, i as int) =~= all);
    }
    change
}

/// The satoshis of all these outputs together, where 64 bits hold them.
pub fn total_outputs(outputs: &Vec<TxOutput>) -> (r: Option<u64>)
    ensures
        r == (if total_value(models(outputs@)) <= u64::MAX {
            Some(total_value(models(outputs@)) as u64)
        } else {
            None
        }),
{
    let ghost all = models(outputs@);
    let mut sum: u64 = 0;
    let mut over: bool = false;
    let mut i: usize = 0;
    while i < outputs.len()
        invariant
            i <= outputs.len(),
            all == models(outputs@),
            !over ==> sum == total_value(all.subrange(0, i as int)),
            over ==> total_value(all.subrange(0, i as int)) > u64::MAX,
        decreases outputs.len() - i,
    {
        proof {
            assert(all.subrange(0, i + 1).drop_last() =~= all.subrange(0, i as int));
        }
        let v = outputs[i].value;
        if !over && sum <= u64::MAX - v {
            sum = sum + v;
        } else {
            over = true;
        }
        i = i + 1;
    }
    proof {
        assert(all.subrange(0, i as int) =~= all);
    }
    if over {
        None
    } else {
        Some(sum)
    }
}

/// Puts the result together from what was read: attributes the outputs to
/// the recipient and to the change, and computes the fee.
pub fn attribute(
    txid: String,
    funding: TxOutput,
    outputs: &Vec<TxOutput>,
    recipient: String,
    block_height: u64,
    block_hash: String,
) -> (r: Result<Extraction, ExtractError>)
    ensures
        agrees(
            r,
            attributed(txid@, funding@, models(outputs@), recipient@, block_height, block_hash@),
        ),
{
    let total = match total_outputs(outputs) {
        Some(t) => t,
        None => {
            return Err(ExtractError::AmountRange);
        },
    };
    let got = recipient_share(outputs, &recipient);
    let change = change_share(outputs, &recipient);
    let fee: i128 = funding.value as i128 - total as i128;
    Ok(
        Extraction {
            txid: txid,
            input_address: funding.address,
            input_amount: funding.value,
            recipient_address: recipient,
            recipient_amount: got,
            change_address: change.address,
            change_amount: change.value,
            fee: fee,
            block_height: block_height,
            block_hash: block_hash,
        },
    )
}

/// Extracts what a payment did from the node's three documents about it:
/// the decoded transaction, the transaction that its input spends, and the
/// block that confirmed it.
pub fn extract(
    txid: String,
    decoded: &serde_json::Value,
    funding_tx: &serde_json::Value,
    block: &serde_json::Value,
    recipient: String,
    block_hash: String,
) -> (r: Result<Extraction, ExtractError>)
    ensures
        agrees(
            r,
            extraction_of(txid@, *decoded, *funding_tx, *block, recipient@, block_hash@),
        ),
{
    let height = match read_height(block) {
        Ok(h) => h,
        Err(e) => {
            return Err(e);
        },
    };
    let input = match read_input_ref(decoded) {
        Ok(x) => x,
        Err(e) => {
            return Err(e);
        },
    };
    let funding = match read_funding(funding_tx, input.index) {
        Ok(f) => f,
        Err(e) => {
            return Err(e);
        },
    };
    let outputs = match read_outputs(decoded) {
        Ok(o) => o,
        Err(e) => {
            return Err(e);
        },
    };
    attribute(txid, funding, &outputs, recipient, height, block_hash)
}

// ---------------------------------------------------------------------------
// Laws
// ---------------------------------------------------------------------------

/// The fee of every result is the funding amount less the sum of all output
/// amounts.
pub proof fn law_fee_is_funding_less_outputs(
    txid: Seq<char>,
    funding: OutputModel,
    outs: Seq<OutputModel>,
    recipient: Seq<char>,
    block_height: u64,
    block_hash: Seq<char>,
)
    requires
        attributed(txid, funding, outs, recipient, block_height, block_hash) is Ok,
    ensures
        attributed(txid, funding, outs, recipient, block_height, block_hash).unwrap().fee
            == funding.value - total_value(outs),
        attributed(txid, funding, outs, recipient, block_height, block_hash).unwrap().input_amount
            == funding.value,
{
}

/// Where the outputs are worth no more than the funding output, the fee is
/// not negative.
pub proof fn law_fee_not_negative(
    txid: Seq<char>,
    funding: OutputModel,
    outs: Seq<OutputModel>,
    recipient: Seq<char>,
    block_height: u64,
    block_hash: Seq<char>,
)
    requires
        total_value(outs) <= funding.value,
    ensures
        attributed(txid, funding, outs, recipient, block_height, block_hash) is Ok,
        attributed(txid, funding, outs, recipient, block_height, block_hash).unwrap().fee >= 0,
{
}

/// Where exactly one output is owned by the recipient, the recipient's
/// amount is the value of that output.
pub proof fn law_single_recipient_output(outs: Seq<OutputModel>, recipient: Seq<char>, k: int)
    requires
        0 <= k < outs.len(),
        outs[k].address == recipient,
        forall|j: int| 0 <= j < outs.len() && j != k ==> (#[trigger] outs[j]).address != recipient,
    ensures
        recipient_amount(outs, recipient) == outs[k].value,
    decreases outs.len(),
{
    if k < outs.len() - 1 {
        let rest = outs.drop_last();
        assert(outs.last() == outs[outs.len() - 1]);
        assert forall|j: int| 0 <= j < rest.len() && j != k implies (#[trigger] rest[j]).address
            != recipient by {
            assert(rest[j] == outs[j]);
        }
        law_single_recipient_output(rest, recipient, k);
    }
}

/// Every extraction that gives a result gives the funding amount less the
/// sum of the amounts of all outputs of the transaction as its fee; the fee
/// is not negative where the outputs are worth no more than the funding
/// output.
pub proof fn law_extraction_fee(
    txid: Seq<char>,
    decoded: serde_json::Value,
    funding_tx: serde_json::Value,
    block: serde_json::Value,
    recipient: Seq<char>,
    block_hash: Seq<char>,
)
    requires
        extraction_of(txid, decoded, funding_tx, block, recipient, block_hash) is Ok,
    ensures
        outputs_of(decoded) is Some,
        ({
            let x = extraction_of(txid, decoded, funding_tx, block, recipient, block_hash).unwrap();
            let total = total_value(outputs_of(decoded).unwrap());
            &&& x.fee == x.input_amount - total
            &&& (total <= x.input_amount ==> x.fee >= 0)
        }),
{
}

/// Where exactly one output of the transaction is owned by the recipient, an
/// extraction that gives a result reports the value of that output as the
/// recipient's amount.
pub proof fn law_extraction_reports_recipient_output(
    txid: Seq<char>,
    decoded: serde_json::Value,
    funding_tx: serde_json::Value,
    block: serde_json::Value,
    recipient: Seq<char>,
    block_hash: Seq<char>,
    k: int,
)
    requires
        extraction_of(txid, decoded, funding_tx, block, recipient, block_hash) is Ok,
        outputs_of(decoded) is Some,
        0 <= k < outputs_of(decoded).unwrap().len(),
        outputs_of(decoded).unwrap()[k].address == recipient,
        forall|j: int|
            0 <= j < outputs_of(decoded).unwrap().len() && j != k ==> (
            #[trigger] outputs_of(decoded).unwrap()[j]).address != recipient,
    ensures
        ({
            let x = extraction_of(txid, decoded, funding_tx, block, recipient, block_hash).unwrap();
            &&& x.recipient_amount == outputs_of(decoded).unwrap()[k].value
            &&& x.recipient_address == recipient
        }),
{
    law_single_recipient_output(outputs_of(decoded).unwrap(), recipient, k);
}

/// The change is never an output of the recipient, and never one without an
/// address: it is an output of the transaction that is change, or it is the
/// empty address with nothing.
pub proof fn law_change_is_not_recipient(outs: Seq<OutputModel>, recipient: Seq<char>)
    ensures
        remainder(outs, recipient) == (OutputModel { value: 0, address: Seq::empty() }) || (
        is_remainder(remainder(outs, recipient), recipient) && outs.contains(
            remainder(outs, recipient),
        )),
    decreases outs.len(),
{
    if outs.len() > 0 {
        if is_remainder(outs.last(), recipient) {
            assert(outs[outs.len() - 1] == outs.last());
        } else {
            let rest = outs.drop_last();
            law_change_is_not_recipient(rest, recipient);
            let c = remainder(rest, recipient);
            if rest.contains(c) {
                let j = choose|j: int| 0 <= j < rest.len() && rest[j] == c;
                assert(outs[j] == c);
            }
        }
    }
}

/// An extraction gives a result only where every field that it reads was
/// there: the block's height, a single input with its transaction id and
/// index, the funding entry with a readable value, and a readable value in
/// every output entry.
pub proof fn law_no_result_without_fields(
    txid: Seq<char>,
    decoded: serde_json::Value,
    funding_tx: serde_json::Value,
    block: serde_json::Value,
    recipient: Seq<char>,
    block_hash: Seq<char>,
)
    requires
        extraction_of(txid, decoded, funding_tx, block, recipient, block_hash) is Ok,
    ensures
        lookup_unsigned(block, "height"@) is Some,
        lookup_elements(decoded, "vin"@) is Some,
        lookup_elements(decoded, "vin"@).unwrap().len() == 1,
        lookup_string(lookup_elements(decoded, "vin"@).unwrap()[0], "txid"@) is Some,
        lookup_unsigned(lookup_elements(decoded, "vin"@).unwrap()[0], "vout"@) is Some,
        input_ref_of(decoded) is Ok,
        funding_entry(funding_tx, input_ref_of(decoded).unwrap().index) is Some,
        output_value(funding_entry(funding_tx, input_ref_of(decoded).unwrap().index).unwrap())
            is Some,
        lookup_elements(decoded, "vout"@) is Some,
        forall|i: int|
            0 <= i < lookup_elements(decoded, "vout"@).unwrap().len() ==> output_value(
                #[trigger] lookup_elements(decoded, "vout"@).unwrap()[i],
            ) is Some,
{
    let es = lookup_elements(decoded, "vout"@).unwrap();
    assert forall|i: int| 0 <= i < es.len() implies output_value(#[trigger] es[i]) is Some by {
        assert(output_of(es[i], Seq::empty()) is Some);
    }
}

} // verus!
