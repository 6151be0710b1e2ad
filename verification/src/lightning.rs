use vstd::prelude::*;

use crate::chain::types::bytes32_from_slice;
use crate::swap::swap_service::PaymentHash;

verus! {

/// Errors of the lightning node.
#[derive(Debug)]
pub enum LightningError {
    ConnectionFailed,
    InvalidPreimage,
    NoRoute,
    PaymentNotFound,
    General(String),
}

/// A payment that the server makes to pay out a swap.
#[derive(Debug)]
pub struct PaymentRequest {
    pub bolt11: String,
    pub cltv_limit: u32,
    pub payment_hash: PaymentHash,
    pub label: String,
    pub fee_limit_msat: u64,
    pub timeout_seconds: u16,
}

/// What the server reads from a BOLT11 invoice.
#[derive(Clone, Copy, Debug, PartialEq, Eq)]
pub struct InvoiceFields {
    pub amount_msat: Option<u64>,
    pub payment_hash: [u8; 32],
    pub min_final_cltv_expiry_delta: u64,
    /// The payee's node key, compressed.
    pub payee_pubkey: [u8; 33],
}

/// Names what the lightning-invoice crate reads from the text of a BOLT11
/// invoice; `None` where it refuses the text.
pub uninterp spec fn spec_parse_invoice(text: Seq<char>) -> Option<InvoiceFields>;

/// Parses a BOLT11 invoice with `lightning_invoice::Bolt11Invoice`'s
/// `FromStr` and reads its amount, payment hash, final CLTV delta (the
/// crate's default where the invoice sets none) and payee key. What it
/// accepts and reads is named, not stated.
#[verifier::external_body]
pub(crate) fn parse_invoice(text: &str) -> (r: Option<InvoiceFields>)
    ensures
        r == spec_parse_invoice(text@),
{
    let invoice: lightning_invoice::Bolt11Invoice = text.parse().ok()?;
    Some(InvoiceFields {
        amount_msat: invoice.amount_milli_satoshis(),
        payment_hash: bitcoin::hashes::Hash::to_byte_array(*invoice.payment_hash()),
        min_final_cltv_expiry_delta: invoice.min_final_cltv_expiry_delta(),
        payee_pubkey: invoice.get_payee_pub_key().serialize(),
    })
}

/// The final result of a payment.
#[derive(Debug)]
pub enum PaymentResult {
    Success { preimage: [u8; 32] },
    Failure { error: String },
}

/// The state of a payment that may still be in flight.
#[derive(Debug)]
pub enum PaymentState {
    Success { preimage: [u8; 32] },
    Failure { error: String },
    Pending,
}

/// A preimage that the lightning node learned, with the label of the payment.
#[derive(Debug)]
pub struct PreimageResult {
    pub preimage: [u8; 32],
    pub label: String,
}

/// A route to a payee.
#[derive(Debug)]
pub struct Route {
    /// The total delay over the route.
    pub delay: u32,
}

/// A payment preimage from raw bytes: exactly 32 bytes, or `InvalidPreimage`.
pub fn preimage_from_bytes(bytes: &Vec<u8>) -> (r: Result<[u8; 32], LightningError>)
    ensures
        match r {
            Ok(p) => bytes@.len() == 32 && p@ == bytes@,
            Err(e) => bytes@.len() != 32 && e is InvalidPreimage,
        },
{
    match bytes32_from_slice(bytes) {
        Some(preimage) => Ok(preimage),
        None => Err(LightningError::InvalidPreimage),
    }
}

} // verus!
