//! Inspection of a confirmed payment on a Bitcoin node.
//!
//! The node answers in JSON documents. This library reads the fields that
//! describe a transaction with a single input, attributes its outputs to the
//! recipient and to the remainder, computes the fee in satoshis, writes the
//! report, and decides which wallet calls a provisioning run has to make.

pub mod json;
pub mod amount;
pub mod extract;
pub mod wallet;
pub mod funding;
pub mod report;
