use vstd::prelude::*;

use crate::chain::monitor::spec_address_from_script;
use crate::chain::types::{confirmations_at, Network, OutPoint, TxOut, Txo};
use crate::chain::filter::{filter_or_keep, filtered_or_all};
use crate::swap::refund_tx::{pub_nonce_from_bytes, spec_is_pub_nonce, spec_tx_previous_outputs, tx_previous_outputs};
use crate::lightning::{parse_invoice, spec_parse_invoice, InvoiceFields, LightningError, PaymentResult};
use crate::chain::types::bytes32_from_slice;
use crate::internal_server::{parse_address, spec_parse_address, AddressError};
use crate::swap::swap_repository::{GetSwapError, GetSwapsError, LockSwapError, SwapPersistenceError};
use crate::swap::swap_service::PaymentHash;
use crate::swap::swap_service::{blocks_left_at, blocks_left_from, sum_values};
use crate::swap::swap_service::{ClaimTxPlan, SwapError};
use crate::swap::swap_service::{
    claim_lock_time, claim_output_value, claim_output_value_spec, claim_weight, unsigned_claim_weight,
    unsigned_tx_weight, CLAIM_INPUT_WITNESS_SIZE, LOCK_TIME_THRESHOLD,
};
use crate::chain::fee_estimator::FeeEstimateError;
use crate::swap::claim_tx::prevout_views;
use crate::swap::privkey_provider::PrivateKeyProvider;
use crate::swap::random_provider::RandomProvider;
use crate::hex_text::{hex_of, hex_of_bytes};
use crate::swap::refund_tx::{refund_signed, swap_tap_tweak};
use crate::swap::swap_service::{claimable_values, ClaimableUtxo, Swap, SwapService, SwapState};

verus! {

/// Confirmation target of the fee estimate that sets the smallest swap.
pub const MIN_SWAP_AMOUNT_CONF_TARGET: i32 = 12;

/// Confirmation target of the fee estimate that checks that a payout can be
/// claimed within reasonable time.
pub const PAYOUT_CLAIM_CONF_TARGET: i32 = 6;

/// The limits that the server gives users.
#[derive(Clone, Copy, Debug, PartialEq, Eq)]
pub struct SwapParameters {
    pub max_swap_amount_sat: u64,
    pub min_swap_amount_sat: u64,
    pub min_utxo_amount_sat: u64,
}

/// The kind of a refusal, as a gRPC status code.
#[derive(Clone, Copy, Debug, PartialEq, Eq)]
pub enum StatusCode {
    InvalidArgument,
    FailedPrecondition,
    NotFound,
    AlreadyExists,
    Internal,
    Unknown,
}

/// Why the public server refuses a request.
#[derive(Clone, Copy, Debug, PartialEq, Eq)]
pub enum SwapServerError {
    InvalidPaymentRequest,
    MissingAmount,
    AmountNotRoundSat,
    AmountAboveMax,
    AmountAboveMaxDeposit,
    AmountBelowMin,
    AlreadyPaid,
    CltvDeltaTooHigh,
    NoUtxos,
    SwapExpired,
    AmountMismatch,
    ValueTooLow,
    SwapLocked,
    PaymentFailed,
    InvalidTransaction,
    InvalidPubNonce,
    InvalidInputIndex,
    InvalidTransactionInput,
    InvalidRefundPubkey,
    InvalidHash,
    HashAlreadyExists,
    SwapNotFound,
    InvalidAddress,
    Internal,
}

impl SwapServerError {
    /// The status code that the error is answered with.
    pub fn code(&self) -> (c: StatusCode)
        ensures
            c == status_code_of(*self),
    {
        match self {
            SwapServerError::InvalidPaymentRequest => StatusCode::InvalidArgument,
            SwapServerError::MissingAmount => StatusCode::InvalidArgument,
            SwapServerError::AmountNotRoundSat => StatusCode::InvalidArgument,
            SwapServerError::AmountAboveMax => StatusCode::InvalidArgument,
            SwapServerError::AmountAboveMaxDeposit => StatusCode::InvalidArgument,
            SwapServerError::AmountBelowMin => StatusCode::InvalidArgument,
            SwapServerError::AlreadyPaid => StatusCode::FailedPrecondition,
            SwapServerError::CltvDeltaTooHigh => StatusCode::InvalidArgument,
            SwapServerError::NoUtxos => StatusCode::FailedPrecondition,
            SwapServerError::SwapExpired => StatusCode::FailedPrecondition,
            SwapServerError::AmountMismatch => StatusCode::FailedPrecondition,
            SwapServerError::ValueTooLow => StatusCode::FailedPrecondition,
            SwapServerError::SwapLocked => StatusCode::FailedPrecondition,
            SwapServerError::PaymentFailed => StatusCode::Unknown,
            SwapServerError::InvalidTransaction => StatusCode::InvalidArgument,
            SwapServerError::InvalidPubNonce => StatusCode::InvalidArgument,
            SwapServerError::InvalidInputIndex => StatusCode::InvalidArgument,
            SwapServerError::InvalidTransactionInput => StatusCode::InvalidArgument,
            SwapServerError::InvalidRefundPubkey => StatusCode::InvalidArgument,
            SwapServerError::InvalidHash => StatusCode::InvalidArgument,
            SwapServerError::HashAlreadyExists => StatusCode::AlreadyExists,
            SwapServerError::SwapNotFound => StatusCode::NotFound,
            SwapServerError::InvalidAddress => StatusCode::InvalidArgument,
            SwapServerError::Internal => StatusCode::Internal,
        }
    }

    /// The message that the error is answered with.
    pub fn message(&self) -> (m: String)
        ensures
            m@ == message_of(*self)@,
    {
        match self {
            SwapServerError::InvalidPaymentRequest => String::from_str("invalid payment request"),
            SwapServerError::MissingAmount => String::from_str("payment request must have an amount"),
            SwapServerError::AmountNotRoundSat => String::from_str(
                "invoice amount must be a round satoshi amount",
            ),
            SwapServerError::AmountAboveMax => String::from_str("amount exceeds max swap amount"),
            SwapServerError::AmountAboveMaxDeposit => String::from_str(
                "amount exceeds maximum allowed deposit",
            ),
            SwapServerError::AmountBelowMin => String::from_str("amount is below min swap amount"),
            SwapServerError::AlreadyPaid => String::from_str("swap already paid"),
            SwapServerError::CltvDeltaTooHigh => String::from_str(
                "min_final_cltv_expiry_delta too high",
            ),
            SwapServerError::NoUtxos => String::from_str("no utxos found"),
            SwapServerError::SwapExpired => String::from_str("swap expired"),
            SwapServerError::AmountMismatch => String::from_str(
                "confirmed utxo values don't match invoice value",
            ),
            SwapServerError::ValueTooLow => String::from_str("value too low"),
            SwapServerError::SwapLocked => String::from_str("swap is locked"),
            SwapServerError::PaymentFailed => String::from_str("payment failed"),
            SwapServerError::InvalidTransaction => String::from_str("invalid transaction"),
            SwapServerError::InvalidPubNonce => String::from_str("invalid pub_nonce"),
            SwapServerError::InvalidInputIndex => String::from_str("invalid input_index"),
            SwapServerError::InvalidTransactionInput => String::from_str(
                "invalid transaction input",
            ),
            SwapServerError::InvalidRefundPubkey => String::from_str("invalid refund_pubkey"),
            SwapServerError::InvalidHash => String::from_str("invalid hash"),
            SwapServerError::HashAlreadyExists => String::from_str("Hash already exists"),
            SwapServerError::SwapNotFound => String::from_str("swap not found"),
            SwapServerError::InvalidAddress => String::from_str("invalid address"),
            SwapServerError::Internal => String::from_str("internal error"),
        }
    }
}

/// The status code of each refusal.
pub open spec fn status_code_of(e: SwapServerError) -> StatusCode {
    match e {
        SwapServerError::InvalidPaymentRequest => StatusCode::InvalidArgument,
        SwapServerError::MissingAmount => StatusCode::InvalidArgument,
        SwapServerError::AmountNotRoundSat => StatusCode::InvalidArgument,
        SwapServerError::AmountAboveMax => StatusCode::InvalidArgument,
        SwapServerError::AmountAboveMaxDeposit => StatusCode::InvalidArgument,
        SwapServerError::AmountBelowMin => StatusCode::InvalidArgument,
        SwapServerError::AlreadyPaid => StatusCode::FailedPrecondition,
        SwapServerError::CltvDeltaTooHigh => StatusCode::InvalidArgument,
        SwapServerError::NoUtxos => StatusCode::FailedPrecondition,
        SwapServerError::SwapExpired => StatusCode::FailedPrecondition,
        SwapServerError::AmountMismatch => StatusCode::FailedPrecondition,
        SwapServerError::ValueTooLow => StatusCode::FailedPrecondition,
        SwapServerError::SwapLocked => StatusCode::FailedPrecondition,
        SwapServerError::PaymentFailed => StatusCode::Unknown,
        SwapServerError::InvalidTransaction => StatusCode::InvalidArgument,
        SwapServerError::InvalidPubNonce => StatusCode::InvalidArgument,
        SwapServerError::InvalidInputIndex => StatusCode::InvalidArgument,
        SwapServerError::InvalidTransactionInput => StatusCode::InvalidArgument,
        SwapServerError::InvalidRefundPubkey => StatusCode::InvalidArgument,
        SwapServerError::InvalidHash => StatusCode::InvalidArgument,
        SwapServerError::HashAlreadyExists => StatusCode::AlreadyExists,
        SwapServerError::SwapNotFound => StatusCode::NotFound,
        SwapServerError::InvalidAddress => StatusCode::InvalidArgument,
        SwapServerError::Internal => StatusCode::Internal,
    }
}

/// The message of each refusal.
pub open spec fn message_of(e: SwapServerError) -> &'static str {
    match e {
        SwapServerError::InvalidPaymentRequest => "invalid payment request",
        SwapServerError::MissingAmount => "payment request must have an amount",
        SwapServerError::AmountNotRoundSat => "invoice amount must be a round satoshi amount",
        SwapServerError::AmountAboveMax => "amount exceeds max swap amount",
        SwapServerError::AmountAboveMaxDeposit => "amount exceeds maximum allowed deposit",
        SwapServerError::AmountBelowMin => "amount is below min swap amount",
        SwapServerError::AlreadyPaid => "swap already paid",
        SwapServerError::CltvDeltaTooHigh => "min_final_cltv_expiry_delta too high",
        SwapServerError::NoUtxos => "no utxos found",
        SwapServerError::SwapExpired => "swap expired",
        SwapServerError::AmountMismatch => "confirmed utxo values don't match invoice value",
        SwapServerError::ValueTooLow => "value too low",
        SwapServerError::SwapLocked => "swap is locked",
        SwapServerError::PaymentFailed => "payment failed",
        SwapServerError::InvalidTransaction => "invalid transaction",
        SwapServerError::InvalidPubNonce => "invalid pub_nonce",
        SwapServerError::InvalidInputIndex => "invalid input_index",
        SwapServerError::InvalidTransactionInput => "invalid transaction input",
        SwapServerError::InvalidRefundPubkey => "invalid refund_pubkey",
        SwapServerError::InvalidHash => "invalid hash",
        SwapServerError::HashAlreadyExists => "Hash already exists",
        SwapServerError::SwapNotFound => "swap not found",
        SwapServerError::InvalidAddress => "invalid address",
        SwapServerError::Internal => "internal error",
    }
}

/// The limits at a fee estimate of `sat_per_kw`: a transaction weight of
/// 1000 is assumed, so the smallest output worth claiming is one and a half
/// times the fee rate.
pub fn swap_parameters(sat_per_kw: u32, max_swap_amount_sat: u64) -> (p: SwapParameters)
    ensures
        p.max_swap_amount_sat == max_swap_amount_sat,
        p.min_swap_amount_sat == sat_per_kw * 3 / 2,
        p.min_utxo_amount_sat == sat_per_kw * 3 / 2,
{
    let min_utxo_amount_sat = (sat_per_kw as u64) * 3 / 2;
    SwapParameters { max_swap_amount_sat, min_swap_amount_sat: min_utxo_amount_sat, min_utxo_amount_sat }
}

/// The limits from the fee estimate that they rest on; a failed estimate
/// is an internal error.
pub fn swap_parameters_from_estimate(estimate: Result<u32, FeeEstimateError>, max_swap_amount_sat: u64) -> (r:
    Result<SwapParameters, SwapServerError>)
    ensures
        match estimate {
            Err(_) => r == Err::<SwapParameters, SwapServerError>(SwapServerError::Internal),
            Ok(f) => r matches Ok(p) && p.max_swap_amount_sat == max_swap_amount_sat
                && p.min_swap_amount_sat == f * 3 / 2 && p.min_utxo_amount_sat == f * 3 / 2,
        },
{
    match estimate {
        Ok(f) => Ok(swap_parameters(f, max_swap_amount_sat)),
        Err(_) => Err(SwapServerError::Internal),
    }
}

/// The smallest deposit that the older funding interface allows at a fee
/// estimate of `sat_per_kw`: one and a half times the fee rate, where the
/// multiplication saturates at 32 bits.
pub fn min_allowed_deposit(sat_per_kw: u32) -> (r: u32)
    ensures
        r == (if sat_per_kw * 3 > u32::MAX {
            u32::MAX as int
        } else {
            sat_per_kw * 3
        }) / 2,
{
    let tripled = match sat_per_kw.checked_mul(3) {
        Some(t) => t,
        None => u32::MAX,
    };
    tripled / 2
}

/// The amount of an invoice in whole satoshi: an invoice must carry an
/// amount, and a whole number of satoshi.
pub fn invoice_amount_sat(amount_msat: Option<u64>) -> (r: Result<u64, SwapServerError>)
    ensures
        amount_msat is None ==> r == Err::<u64, SwapServerError>(SwapServerError::MissingAmount),
        amount_msat matches Some(m) ==> (m % 1000 != 0 ==> r == Err::<u64, SwapServerError>(
            SwapServerError::AmountNotRoundSat,
        )) && (m % 1000 == 0 ==> r == Ok::<u64, SwapServerError>(m / 1000)),
{
    let amount_msat = match amount_msat {
        Some(m) => m,
        None => return Err(SwapServerError::MissingAmount),
    };
    let amount_sat = amount_msat / 1000;
    if amount_sat * 1000 != amount_msat {
        return Err(SwapServerError::AmountNotRoundSat);
    }
    Ok(amount_sat)
}

/// An amount must lie within the limits.
pub fn check_amount_limits(amount_sat: u64, parameters: &SwapParameters) -> (r: Result<
    (),
    SwapServerError,
>)
    ensures
        amount_sat > parameters.max_swap_amount_sat ==> r == Err::<(), SwapServerError>(
            SwapServerError::AmountAboveMax,
        ),
        amount_sat <= parameters.max_swap_amount_sat && amount_sat
            < parameters.min_swap_amount_sat ==> r == Err::<(), SwapServerError>(
            SwapServerError::AmountBelowMin,
        ),
        parameters.min_swap_amount_sat <= amount_sat <= parameters.max_swap_amount_sat ==> r
            == Ok::<(), SwapServerError>(()),
{
    if amount_sat > parameters.max_swap_amount_sat {
        return Err(SwapServerError::AmountAboveMax);
    }
    if amount_sat < parameters.min_swap_amount_sat {
        return Err(SwapServerError::AmountBelowMin);
    }
    Ok(())
}

/// A swap whose preimage is known was paid already.
pub fn check_not_paid(preimage: Option<[u8; 32]>) -> (r: Result<(), SwapServerError>)
    ensures
        preimage is Some <==> r is Err,
        r is Err ==> r == Err::<(), SwapServerError>(SwapServerError::AlreadyPaid),
{
    match preimage {
        Some(_) => Err(SwapServerError::AlreadyPaid),
        None => Ok(()),
    }
}

/// The final cltv delta of an invoice must fit in 32 bits.
pub fn invoice_cltv_delta(delta: u64) -> (r: Result<u32, SwapServerError>)
    ensures
        delta <= u32::MAX ==> r == Ok::<u32, SwapServerError>(delta as u32),
        delta > u32::MAX ==> r == Err::<u32, SwapServerError>(SwapServerError::CltvDeltaTooHigh),
{
    if delta <= u32::MAX as u64 {
        Ok(delta as u32)
    } else {
        Err(SwapServerError::CltvDeltaTooHigh)
    }
}

/// The cltv limit for paying out a swap whose earliest output confirmed at
/// `confirmation_height`: the blocks left until the refund path of that
/// output opens, less the blocks kept back to claim on chain. A swap whose
/// lock has passed, or that leaves no block, or that leaves fewer than
/// `min_viable_cltv` blocks once the invoice's final delta is taken off,
/// has expired.
pub open spec fn payout_cltv_limit_spec(
    lock_time: u16,
    confirmation_height: u64,
    current_height: u64,
    min_claim_blocks: u32,
    min_final_cltv_expiry_delta: u32,
    min_viable_cltv: u32,
) -> Result<u32, SwapServerError> {
    let left = blocks_left_at(lock_time, confirmation_height, current_height);
    if left < 0 {
        Err(SwapServerError::SwapExpired)
    } else {
        let limit: int = if left >= min_claim_blocks {
            left - min_claim_blocks
        } else {
            0
        };
        let after_delta: int = if limit >= min_final_cltv_expiry_delta {
            limit - min_final_cltv_expiry_delta
        } else {
            0
        };
        if limit == 0 || after_delta < min_viable_cltv {
            Err(SwapServerError::SwapExpired)
        } else {
            Ok(limit as u32)
        }
    }
}

pub fn payout_cltv_limit(
    lock_time: u16,
    confirmation_height: u64,
    current_height: u64,
    min_claim_blocks: u32,
    min_final_cltv_expiry_delta: u32,
    min_viable_cltv: u32,
) -> (r: Result<u32, SwapServerError>)
    ensures
        r == payout_cltv_limit_spec(
            lock_time,
            confirmation_height,
            current_height,
            min_claim_blocks,
            min_final_cltv_expiry_delta,
            min_viable_cltv,
        ),
{
    let left = blocks_left_from(lock_time, confirmation_height, current_height);
    if left < 0 {
        return Err(SwapServerError::SwapExpired);
    }
    let blocks_left = (left as u32).saturating_sub(min_claim_blocks);
    if blocks_left == 0 || blocks_left.saturating_sub(min_final_cltv_expiry_delta)
        < min_viable_cltv {
        return Err(SwapServerError::SwapExpired);
    }
    Ok(blocks_left)
}

/// A payout never lets the lightning payment hold the funds into the last
/// `min_claim_blocks` blocks before the refund path of its earliest output
/// opens, `lock_time` blocks after that output confirmed, and, with a
/// smallest viable delta set, leaves room for it beside the invoice's final
/// delta.
pub proof fn law_payout_leaves_claim_time(
    lock_time: u16,
    confirmation_height: u64,
    current_height: u64,
    min_claim_blocks: u32,
    min_final_cltv_expiry_delta: u32,
    min_viable_cltv: u32,
)
    requires
        i32::MIN <= confirmation_height + lock_time - current_height <= i32::MAX,
    ensures
        payout_cltv_limit_spec(
            lock_time,
            confirmation_height,
            current_height,
            min_claim_blocks,
            min_final_cltv_expiry_delta,
            min_viable_cltv,
        ) matches Ok(limit) ==> {
            &&& limit > 0
            &&& current_height + limit + min_claim_blocks <= confirmation_height + lock_time
            &&& min_viable_cltv > 0 ==> limit >= min_final_cltv_expiry_delta + min_viable_cltv
        },
{
    let d: int = confirmation_height + lock_time - current_height;
    let left = blocks_left_at(lock_time, confirmation_height, current_height);
    assert(left == d);
}

/// An output is paid out when it has enough confirmations and is worth at
/// least the smallest output.
pub open spec fn is_payable(
    txo: Txo,
    current_height: u64,
    min_confirmations: u64,
    min_utxo_amount_sat: u64,
) -> bool {
    confirmations_at(txo.block_height, current_height) >= min_confirmations
        && txo.tx_out.value_sat >= min_utxo_amount_sat
}

/// The payable outputs among the first `n`, in order.
pub open spec fn payable_spec(
    txos: Seq<Txo>,
    current_height: u64,
    min_confirmations: u64,
    min_utxo_amount_sat: u64,
    n: int,
) -> Seq<Txo>
    decreases n,
{
    if n <= 0 {
        Seq::empty()
    } else {
        let prev = payable_spec(txos, current_height, min_confirmations, min_utxo_amount_sat, n - 1);
        if is_payable(txos[n - 1], current_height, min_confirmations, min_utxo_amount_sat) {
            prev.push(txos[n - 1])
        } else {
            prev
        }
    }
}

/// The outputs of a swap that a payout pays for, in order.
pub fn payable_txos(
    txos: Vec<Txo>,
    current_height: u64,
    min_confirmations: u64,
    min_utxo_amount_sat: u64,
) -> (r: Vec<Txo>)
    ensures
        r@ == payable_spec(
            txos@,
            current_height,
            min_confirmations,
            min_utxo_amount_sat,
            txos@.len() as int,
        ),
{
    let ghost v = txos@;
    let mut rest = txos;
    let n = rest.len();
    let mut result: Vec<Txo> = Vec::new();
    let mut i: usize = 0;
    while rest.len() > 0
        invariant
            v.len() == n,
            i <= n,
            rest@ == v.subrange(i as int, n as int),
            result@ == payable_spec(v, current_height, min_confirmations, min_utxo_amount_sat, i as int),
        decreases rest@.len(),
    {
        let txo = rest.remove(0);
        proof {
            assert(txo == v[i as int]);
            assert(rest@ =~= v.subrange(i + 1, n as int));
        }
        let confirmations = txo.confirmations(current_height);
        if confirmations >= min_confirmations && txo.tx_out.value_sat >= min_utxo_amount_sat {
            result.push(txo);
        }
        i = i + 1;
    }
    result
}

/// Height difference from an output's block to the current block, zero
/// for a block above the current one.
pub open spec fn height_difference(block_height: u64, current_height: u64) -> int {
    if current_height >= block_height {
        current_height - block_height
    } else {
        0
    }
}

/// The outputs among the first `n` whose height difference lies between
/// `min_confirmations` and `max_confirmations`, in order.
pub open spec fn window_spec(
    txos: Seq<Txo>,
    current_height: u64,
    min_confirmations: u32,
    max_confirmations: u32,
    n: int,
) -> Seq<Txo>
    decreases n,
{
    if n <= 0 {
        Seq::empty()
    } else {
        let prev = window_spec(txos, current_height, min_confirmations, max_confirmations, n - 1);
        let d = height_difference(txos[n - 1].block_height, current_height);
        if min_confirmations <= d <= max_confirmations {
            prev.push(txos[n - 1])
        } else {
            prev
        }
    }
}

/// The outputs that the earlier payout flow pays for: confirmed at least
/// `min_confirmations` deep, and with at least `min_redeem_blocks` of the
/// lock time left, so no deeper than the lock time less those blocks. Where
/// the lock time is shorter than the blocks kept for redeeming, no output is
/// eligible.
pub fn utxos_in_confirmation_window(
    txos: Vec<Txo>,
    current_height: u64,
    min_confirmations: u32,
    lock_time: u32,
    min_redeem_blocks: u32,
) -> (r: Vec<Txo>)
    ensures
        lock_time < min_redeem_blocks ==> r@.len() == 0,
        lock_time >= min_redeem_blocks ==> r@ == window_spec(
            txos@,
            current_height,
            min_confirmations,
            (lock_time - min_redeem_blocks) as u32,
            txos@.len() as int,
        ),
{
    if lock_time < min_redeem_blocks {
        return Vec::new();
    }
    let max_confirmations = lock_time.saturating_sub(min_redeem_blocks);
    let ghost v = txos@;
    let mut rest = txos;
    let n = rest.len();
    let mut result: Vec<Txo> = Vec::new();
    let mut i: usize = 0;
    while rest.len() > 0
        invariant
            v.len() == n,
            i <= n,
            rest@ == v.subrange(i as int, n as int),
            result@ == window_spec(v, current_height, min_confirmations, max_confirmations, i as int),
        decreases rest@.len(),
    {
        let txo = rest.remove(0);
        proof {
            assert(txo == v[i as int]);
            assert(rest@ =~= v.subrange(i + 1, n as int));
        }
        let confirmations = current_height.saturating_sub(txo.block_height);
        if confirmations >= min_confirmations as u64 && confirmations <= max_confirmations as u64 {
            result.push(txo);
        }
        i = i + 1;
    }
    result
}

/// The values of a sequence of outputs.
pub open spec fn txo_values(txos: Seq<Txo>) -> Seq<u64> {
    Seq::new(txos.len(), |k: int| txos[k].tx_out.value_sat)
}

/// The outputs paid out must add up to the invoice amount exactly.
pub fn check_amount_matches(txos: &Vec<Txo>, amount_sat: u64) -> (r: Result<(), SwapServerError>)
    requires
        sum_values(txo_values(txos@)) <= u64::MAX,
    ensures
        sum_values(txo_values(txos@)) == amount_sat <==> r is Ok,
        r is Err ==> r == Err::<(), SwapServerError>(SwapServerError::AmountMismatch),
{
    let ghost vals = txo_values(txos@);
    let mut sum: u64 = 0;
    let mut i: usize = 0;
    while i < txos.len()
        invariant
            i <= txos@.len(),
            vals == txo_values(txos@),
            sum == sum_values(vals.subrange(0, i as int)),
            sum_values(vals) <= u64::MAX,
        decreases txos@.len() - i,
    {
        proof {
            crate::swap::swap_service::lemma_sum_values_prefix_bounded(vals, i as int + 1);
            assert(vals.subrange(0, i + 1).drop_last() =~= vals.subrange(0, i as int));
        }
        sum = sum + txos[i].tx_out.value_sat;
        i = i + 1;
    }
    proof {
        assert(vals.subrange(0, txos@.len() as int) =~= vals);
    }
    if sum != amount_sat {
        return Err(SwapServerError::AmountMismatch);
    }
    Ok(())
}

/// The routing fee limit of a payout: a base plus a proportional part in
/// millionths of the amount, where the product saturates.
pub fn fee_limit_msat(base_msat: u64, amount_msat: u64, ppm: u64) -> (r: u64)
    requires
        base_msat + (if amount_msat * ppm > u64::MAX {
            u64::MAX as int
        } else {
            amount_msat * ppm
        }) / 1_000_000 <= u64::MAX,
    ensures
        r == base_msat + (if amount_msat * ppm > u64::MAX {
            u64::MAX as int
        } else {
            amount_msat * ppm
        }) / 1_000_000,
{
    let proportional = match amount_msat.checked_mul(ppm) {
        Some(p) => p,
        None => u64::MAX,
    };
    base_msat + proportional / 1_000_000
}

/// The answer to a lock that a payout or a refund could not take.
pub fn lock_refusal(e: &LockSwapError) -> (r: SwapServerError)
    ensures
        *e is AlreadyLocked ==> r == SwapServerError::SwapLocked,
        !(*e is AlreadyLocked) ==> r == SwapServerError::Internal,
{
    match e {
        LockSwapError::AlreadyLocked => SwapServerError::SwapLocked,
        _ => SwapServerError::Internal,
    }
}

/// The answer to a payment: it succeeds with the preimage, and a failed
/// payment is refused as failed.
pub fn pay_outcome(result: &PaymentResult) -> (r: Result<(), SwapServerError>)
    ensures
        *result is Success <==> r is Ok,
        r is Err ==> r == Err::<(), SwapServerError>(SwapServerError::PaymentFailed),
{
    match result {
        PaymentResult::Success { .. } => Ok(()),
        PaymentResult::Failure { .. } => Err(SwapServerError::PaymentFailed),
    }
}

/// The input of a refund transaction that the server signs must exist.
pub fn check_input_index(input_index: u32, n_inputs: usize) -> (r: Result<usize, SwapServerError>)
    ensures
        input_index < n_inputs <==> r is Ok,
        r matches Ok(i) ==> i == input_index,
        r is Err ==> r == Err::<usize, SwapServerError>(SwapServerError::InvalidInputIndex),
{
    if input_index as u64 >= n_inputs as u64 {
        return Err(SwapServerError::InvalidInputIndex);
    }
    Ok(input_index as usize)
}

/// A refund request whose transaction, nonce and input index were read.
#[derive(Debug)]
pub struct RefundRequest {
    /// The outpoints that the transaction's inputs spend, in input order.
    pub previous_outputs: Vec<OutPoint>,
    pub their_pub_nonce: [u8; 66],
    pub input_index: usize,
}

/// Reads a refund request: the transaction must decode, the user's nonce
/// parse, and the input index name one of the transaction's inputs, each
/// refusal in that order.
pub fn refund_request(tx: &Vec<u8>, pub_nonce: &Vec<u8>, input_index: u32) -> (r: Result<
    RefundRequest,
    SwapServerError,
>)
    ensures
        match spec_tx_previous_outputs(tx@) {
            None => r == Err::<RefundRequest, SwapServerError>(SwapServerError::InvalidTransaction),
            Some(outpoints) => if !(pub_nonce@.len() == 66 && spec_is_pub_nonce(pub_nonce@)) {
                r == Err::<RefundRequest, SwapServerError>(SwapServerError::InvalidPubNonce)
            } else if input_index >= outpoints.len() {
                r == Err::<RefundRequest, SwapServerError>(SwapServerError::InvalidInputIndex)
            } else {
                r matches Ok(req) && req.previous_outputs@ == outpoints && req.their_pub_nonce@
                    == pub_nonce@ && req.input_index == input_index
            },
        },
{
    let previous_outputs = match tx_previous_outputs(tx) {
        Some(o) => o,
        None => {
            return Err(SwapServerError::InvalidTransaction);
        },
    };
    let their_pub_nonce = match pub_nonce_from_bytes(pub_nonce) {
        Some(n) => n,
        None => {
            return Err(SwapServerError::InvalidPubNonce);
        },
    };
    let input_index = check_input_index(input_index, previous_outputs.len())?;
    Ok(RefundRequest { previous_outputs, their_pub_nonce, input_index })
}

/// The output that an input spends, from the outputs of its transaction.
pub fn spent_output(outputs: &Vec<TxOut>, vout: u32) -> (r: Result<TxOut, SwapServerError>)
    ensures
        vout < outputs@.len() <==> r is Ok,
        r matches Ok(o) ==> o.value_sat == outputs@[vout as int].value_sat
            && o.script_pubkey@ == outputs@[vout as int].script_pubkey@,
        r is Err ==> r == Err::<TxOut, SwapServerError>(SwapServerError::InvalidTransactionInput),
{
    if vout as u64 >= outputs.len() as u64 {
        return Err(SwapServerError::InvalidTransactionInput);
    }
    Ok(outputs[vout as usize].clone())
}

/// The transaction fetched for an input was found and has the output that
/// the input spends.
pub open spec fn input_found(fetched: Result<Vec<TxOut>, ()>, vout: u32) -> bool {
    fetched matches Ok(outs) && vout < outs@.len()
}

/// The prevouts of a refund transaction: for each input, the output it
/// spends from the outputs of the transaction that was fetched for it.
pub open spec fn refund_prevouts_spec(
    fetched: Seq<Result<Vec<TxOut>, ()>>,
    outpoints: Seq<OutPoint>,
) -> Option<Seq<(u64, Seq<u8>)>> {
    if forall|i: int| 0 <= i < outpoints.len() ==> #[trigger] input_found(fetched[i], outpoints[i].vout) {
        Some(
            Seq::new(
                outpoints.len(),
                |i: int|
                    (
                        fetched[i]->Ok_0@[outpoints[i].vout as int].value_sat,
                        fetched[i]->Ok_0@[outpoints[i].vout as int].script_pubkey@,
                    ),
            ),
        )
    } else {
        None
    }
}

/// Gathers the outputs that a refund transaction's inputs spend; an input
/// whose transaction was not found, or that names no output of it, is
/// refused as an invalid input.
pub fn refund_prevouts(fetched: &Vec<Result<Vec<TxOut>, ()>>, outpoints: &Vec<OutPoint>) -> (r:
    Result<Vec<TxOut>, SwapServerError>)
    requires
        fetched@.len() == outpoints@.len(),
    ensures
        match refund_prevouts_spec(fetched@, outpoints@) {
            Some(views) => r matches Ok(prevouts) && prevout_views(prevouts@) == views,
            None => r == Err::<Vec<TxOut>, SwapServerError>(SwapServerError::InvalidTransactionInput),
        },
{
    let mut prevouts: Vec<TxOut> = Vec::new();
    let mut i: usize = 0;
    while i < outpoints.len()
        invariant
            fetched@.len() == outpoints@.len(),
            0 <= i <= outpoints@.len(),
            prevouts@.len() == i,
            forall|j: int| 0 <= j < i ==> #[trigger] input_found(fetched@[j], outpoints@[j].vout),
            forall|j: int|
                0 <= j < i ==> #[trigger] prevout_views(prevouts@)[j] == (
                    fetched@[j]->Ok_0@[outpoints@[j].vout as int].value_sat,
                    fetched@[j]->Ok_0@[outpoints@[j].vout as int].script_pubkey@,
                ),
        decreases outpoints@.len() - i,
    {
        let out = match &fetched[i] {
            Ok(outs) => match spent_output(outs, outpoints[i].vout) {
                Ok(o) => o,
                Err(e) => {
                    assert(!input_found(fetched@[i as int], outpoints@[i as int].vout));
                    return Err(e);
                },
            },
            Err(()) => {
                assert(!input_found(fetched@[i as int], outpoints@[i as int].vout));
                return Err(SwapServerError::InvalidTransactionInput);
            },
        };
        assert(input_found(fetched@[i as int], outpoints@[i as int].vout));
        let ghost before = prevouts@;
        prevouts.push(out);
        proof {
            assert forall|j: int| 0 <= j <= i implies #[trigger] prevout_views(prevouts@)[j] == (
                fetched@[j]->Ok_0@[outpoints@[j].vout as int].value_sat,
                fetched@[j]->Ok_0@[outpoints@[j].vout as int].script_pubkey@,
            ) by {
                if j < i {
                    assert(prevouts@[j] == before[j]);
                    assert(prevout_views(before)[j] == prevout_views(prevouts@)[j]);
                }
            }
        }
        i = i + 1;
    }
    proof {
        let views = refund_prevouts_spec(fetched@, outpoints@)->Some_0;
        assert(prevout_views(prevouts@) =~= views);
    }
    Ok(prevouts)
}

/// The server only signs a refund of an output paid to the swap's own
/// address: the output script must encode `address` on `network`.
pub fn check_refund_prevout(script_pubkey: &Vec<u8>, network: Network, address: &String) -> (r:
    Result<(), SwapServerError>)
    ensures
        r is Ok <==> spec_address_from_script(script_pubkey@, network) == Some(address@),
        r is Err ==> r == Err::<(), SwapServerError>(SwapServerError::InvalidTransactionInput),
{
    let found = crate::chain::monitor::address_from_script(script_pubkey, network);
    prevout_pays_address(&found, address)
}

/// Whether the address found in a spent output's script is the swap
/// address; refused as an invalid input otherwise.
pub fn prevout_pays_address(found: &Option<String>, address: &String) -> (r: Result<(), SwapServerError>)
    ensures
        r is Ok <==> (found matches Some(a) && a@ == address@),
        r is Err ==> r == Err::<(), SwapServerError>(SwapServerError::InvalidTransactionInput),
{
    match found {
        Some(a) => {
            if *a == *address {
                Ok(())
            } else {
                Err(SwapServerError::InvalidTransactionInput)
            }
        },
        None => Err(SwapServerError::InvalidTransactionInput),
    }
}

/// What a refund does after locking the swap, by what the lightning node
/// says of payments to the swap hash: a pending or complete payment, or an
/// error of the node, unlocks the swap again and refuses the refund.
pub fn refund_payment_check(has_payment: Result<bool, ()>) -> (r: Result<(), SwapServerError>)
    ensures
        has_payment == Ok::<bool, ()>(false) <==> r is Ok,
        has_payment == Ok::<bool, ()>(true) ==> r == Err::<(), SwapServerError>(
            SwapServerError::SwapLocked,
        ),
        has_payment is Err ==> r == Err::<(), SwapServerError>(SwapServerError::Internal),
{
    match has_payment {
        Ok(false) => Ok(()),
        Ok(true) => Err(SwapServerError::SwapLocked),
        Err(()) => Err(SwapServerError::Internal),
    }
}

/// Names what the secp256k1 crate makes of bytes as a public key: `None`
/// where they encode no point of the curve, else the key in its 33-byte
/// compressed encoding.
pub uninterp spec fn spec_parse_public_key(bytes: Seq<u8>) -> Option<Seq<u8>>;

/// Parses a public key with `secp256k1::PublicKey::from_slice` and encodes
/// it compressed with `serialize`. Which bytes encode a point is left to the
/// name.
#[verifier::external_body]
pub(crate) fn parse_public_key(bytes: &Vec<u8>) -> (r: Option<[u8; 33]>)
    ensures
        match r {
            Some(k) => spec_parse_public_key(bytes@) == Some(k@),
            None => spec_parse_public_key(bytes@) is None,
        },
{
    match bitcoin::secp256k1::PublicKey::from_slice(bytes.as_slice()) {
        Ok(key) => Some(key.serialize()),
        Err(_) => None,
    }
}

/// The refund key and the payment hash of a request for a new swap: the key
/// must be a point of the curve and the hash 32 bytes long, checked in that
/// order.
pub fn create_swap_request(refund_pubkey: &Vec<u8>, hash: &Vec<u8>) -> (r: Result<
    ([u8; 33], PaymentHash),
    SwapServerError,
>)
    ensures
        match spec_parse_public_key(refund_pubkey@) {
            None => r == Err::<([u8; 33], PaymentHash), SwapServerError>(
                SwapServerError::InvalidRefundPubkey,
            ),
            Some(key) => if hash@.len() == 32 {
                r matches Ok((k, h)) && k@ == key && h.bytes@ == hash@
            } else {
                r == Err::<([u8; 33], PaymentHash), SwapServerError>(SwapServerError::InvalidHash)
            },
        },
{
    let key = parse_public_key(refund_pubkey);
    swap_request_keys(key, hash)
}

/// The refund key and payment hash of a new swap from the parsed key: a
/// missing key is refused first, then a hash that is not 32 bytes long.
pub fn swap_request_keys(key: Option<[u8; 33]>, hash: &Vec<u8>) -> (r: Result<
    ([u8; 33], PaymentHash),
    SwapServerError,
>)
    ensures
        match key {
            None => r == Err::<([u8; 33], PaymentHash), SwapServerError>(
                SwapServerError::InvalidRefundPubkey,
            ),
            Some(k0) => if hash@.len() == 32 {
                r matches Ok((k, h)) && k == k0 && h.bytes@ == hash@
            } else {
                r == Err::<([u8; 33], PaymentHash), SwapServerError>(SwapServerError::InvalidHash)
            },
        },
{
    let key = match key {
        Some(k) => k,
        None => return Err(SwapServerError::InvalidRefundPubkey),
    };
    match bytes32_from_slice(hash) {
        Some(bytes) => Ok((key, PaymentHash { bytes })),
        None => Err(SwapServerError::InvalidHash),
    }
}

/// The answer to a swap that could not be stored: a hash that is taken is
/// refused as such, anything else is an internal error.
pub fn persistence_refusal(e: &SwapPersistenceError) -> (r: SwapServerError)
    ensures
        *e is AlreadyExists ==> r == SwapServerError::HashAlreadyExists,
        !(*e is AlreadyExists) ==> r == SwapServerError::Internal,
{
    match e {
        SwapPersistenceError::AlreadyExists => SwapServerError::HashAlreadyExists,
        _ => SwapServerError::Internal,
    }
}

/// The answer to a swap that could not be read: not found, or an internal
/// error.
pub fn swap_lookup_refusal(e: &GetSwapsError) -> (r: SwapServerError)
    ensures
        *e is NotFound ==> r == SwapServerError::SwapNotFound,
        !(*e is NotFound) ==> r == SwapServerError::Internal,
{
    match e {
        GetSwapsError::NotFound => SwapServerError::SwapNotFound,
        _ => SwapServerError::Internal,
    }
}

/// The swap address that a refund names: it must parse and belong to the
/// server's network.
pub fn refund_address(text: &String, network: Network) -> (r: Result<String, SwapServerError>)
    ensures
        match spec_parse_address(text@, network) {
            Some(Some(a)) => r matches Ok(checked) && checked@ == a,
            _ => r == Err::<String, SwapServerError>(SwapServerError::InvalidAddress),
        },
{
    checked_refund_address(parse_address(text, network))
}

/// The swap address of a refund from the parsed address; an address that
/// does not parse or belongs to another network is refused alike.
pub fn checked_refund_address(parsed: Result<String, AddressError>) -> (r: Result<
    String,
    SwapServerError,
>)
    ensures
        match parsed {
            Ok(a) => r == Ok::<String, SwapServerError>(a),
            Err(_) => r == Err::<String, SwapServerError>(SwapServerError::InvalidAddress),
        },
{
    match parsed {
        Ok(a) => Ok(a),
        Err(_) => Err(SwapServerError::InvalidAddress),
    }
}

/// The settings of the payout of a swap.
#[derive(Clone, Copy, Debug, PartialEq, Eq)]
pub struct PayoutConfig {
    pub min_confirmations: u64,
    pub min_claim_blocks: u32,
    pub min_viable_cltv: u32,
    pub fee_limit_base_msat: u64,
    pub fee_limit_ppm: u64,
    /// The smallest output that a claim may leave.
    pub dust_limit_sat: u64,
}

/// Where a payout stands: what it waits for next.
#[derive(Clone, Copy, Debug, PartialEq, Eq)]
pub enum PayoutStage {
    /// The swap limits at the current fee estimate.
    Parameters,
    /// The swap of the invoice's payment hash.
    Swap,
    /// The outputs paid to the swap address.
    Txos,
    /// The current block height.
    Height,
    /// The payable outputs that the chain filter lets through.
    Filter,
    /// Whether a claim of the outputs is possible at the payout fee estimate.
    ClaimCheck,
    /// The payment lock on the swap, with the payment attempt stored.
    Lock,
    /// The result of the lightning payment.
    Payment,
}

/// A payout in progress: each step takes what the server fetched and
/// checks it, in the order in which the server fetches.
#[derive(Debug)]
pub struct PayoutFlow {
    pub config: PayoutConfig,
    pub stage: PayoutStage,
    /// The invoice that the payout pays.
    pub invoice: InvoiceFields,
    pub amount_msat: u64,
    pub amount_sat: u64,
    pub parameters: SwapParameters,
    pub lock_time: u16,
    /// The lowest confirmation height among the swap's outputs.
    pub confirmation_height: u64,
    pub cltv_delta: u32,
    pub current_height: u64,
    pub cltv_limit: u32,
    pub txos: Vec<Txo>,
    /// The fee rate at which the outputs were found claimable.
    pub claim_fee_per_kw: u32,
    /// The swap that is paid out, once read.
    pub swap: Option<Swap>,
}

/// The payment that a payout makes, once every check passed, with the
/// outputs that its payment attempt is stored with.
#[derive(Clone, Debug, PartialEq, Eq)]
pub struct PayoutPayment {
    pub outpoints: Vec<OutPoint>,
    pub payment_hash: [u8; 32],
    pub amount_msat: u64,
    pub cltv_limit: u32,
    pub fee_limit_msat: u64,
}

/// The lowest confirmation height among outputs; zero for none.
pub open spec fn min_block_height(txos: Seq<Txo>) -> u64
    decreases txos.len(),
{
    if txos.len() == 0 {
        0
    } else if txos.len() == 1 {
        txos[0].block_height
    } else {
        let m = min_block_height(txos.drop_last());
        if txos.last().block_height < m {
            txos.last().block_height
        } else {
            m
        }
    }
}

/// The confirmation height a payout counts from is the lowest among its
/// outputs: no output confirmed below it, and one output confirmed at it.
pub proof fn law_min_block_height_is_lowest(txos: Seq<Txo>)
    ensures
        forall|k: int| 0 <= k < txos.len() ==> min_block_height(txos) <= (#[trigger] txos[k]).block_height,
        txos.len() > 0 ==> exists|k: int|
            0 <= k < txos.len() && (#[trigger] txos[k]).block_height == min_block_height(txos),
    decreases txos.len(),
{
    if txos.len() > 1 {
        let prev = txos.drop_last();
        law_min_block_height_is_lowest(prev);
        assert forall|k: int| 0 <= k < prev.len() implies #[trigger] prev[k] == txos[k] by {}
        let j = choose|k: int| 0 <= k < prev.len() && (#[trigger] prev[k]).block_height == min_block_height(prev);
        assert(txos[j] == prev[j]);
        assert(txos[txos.len() - 1] == txos.last());
        assert forall|k: int| 0 <= k < txos.len() implies min_block_height(txos) <= (
        #[trigger] txos[k]).block_height by {
            if k < txos.len() - 1 {
                assert(txos[k] == prev[k]);
            }
        }
    } else if txos.len() == 1 {
        assert(txos[0].block_height == min_block_height(txos));
    }
}

/// The lowest confirmation height among outputs; zero for none.
pub fn min_confirmation_height(txos: &Vec<Txo>) -> (r: u64)
    ensures
        r == min_block_height(txos@),
        forall|k: int| 0 <= k < txos@.len() ==> r <= (#[trigger] txos@[k]).block_height,
        txos@.len() > 0 ==> exists|k: int| 0 <= k < txos@.len() && (#[trigger] txos@[k]).block_height == r,
{
    proof {
        law_min_block_height_is_lowest(txos@);
    }
    if txos.len() == 0 {
        return 0;
    }
    let mut m = txos[0].block_height;
    let mut i: usize = 1;
    proof {
        assert(txos@.subrange(0, 1).len() == 1);
    }
    while i < txos.len()
        invariant
            1 <= i <= txos@.len(),
            m == min_block_height(txos@.subrange(0, i as int)),
        decreases txos@.len() - i,
    {
        proof {
            assert(txos@.subrange(0, i + 1).drop_last() =~= txos@.subrange(0, i as int));
        }
        if txos[i].block_height < m {
            m = txos[i].block_height;
        }
        i = i + 1;
    }
    proof {
        assert(txos@.subrange(0, txos@.len() as int) =~= txos@);
    }
    m
}

/// A payout's outputs as claimable outputs of its swap, with the
/// placeholder preimage, for the payout's claim check.
fn payout_claimables(swap: &Swap, txos: Vec<Txo>) -> (r: Vec<ClaimableUtxo>)
    ensures
        r@.len() == txos@.len(),
        forall|k: int|
            0 <= k < r@.len() ==> (#[trigger] r@[k]).utxo == txos@[k] && r@[k].swap@ == swap@
                && r@[k].paid_with_request is None,
{
    let ghost all = txos@;
    let mut rest = txos;
    let mut r: Vec<ClaimableUtxo> = Vec::new();
    while rest.len() > 0
        invariant
            r@.len() + rest@.len() == all.len(),
            rest@ == all.subrange(r@.len() as int, all.len() as int),
            forall|k: int|
                0 <= k < r@.len() ==> (#[trigger] r@[k]).utxo == all[k] && r@[k].swap@ == swap@
                    && r@[k].paid_with_request is None,
        decreases rest@.len(),
    {
        let t = rest.remove(0);
        assert(t == all[r@.len() as int]);
        r.push(ClaimableUtxo { swap: swap.clone(), utxo: t, paid_with_request: None, preimage: [0u8; 32] });
        assert(rest@ =~= all.subrange(r@.len() as int, all.len() as int));
    }
    r
}

/// The outputs of claimable outputs, in order.
fn claimed_outputs(cl: Vec<ClaimableUtxo>) -> (r: Vec<Txo>)
    ensures
        r@.len() == cl@.len(),
        forall|k: int| 0 <= k < r@.len() ==> #[trigger] r@[k] == cl@[k].utxo,
{
    let ghost all = cl@;
    let mut rest = cl;
    let mut r: Vec<Txo> = Vec::new();
    while rest.len() > 0
        invariant
            r@.len() + rest@.len() == all.len(),
            rest@ == all.subrange(r@.len() as int, all.len() as int),
            forall|k: int| 0 <= k < r@.len() ==> #[trigger] r@[k] == all[k].utxo,
        decreases rest@.len(),
    {
        let c = rest.remove(0);
        assert(c == all[r@.len() as int]);
        r.push(c.utxo);
        assert(rest@ =~= all.subrange(r@.len() as int, all.len() as int));
    }
    r
}

/// How a payout ends once its payment call returned: whether the payment
/// result is stored and the swap's payment lock released, and the answer.
#[derive(Clone, Copy, Debug, PartialEq, Eq)]
pub struct PayoutSettlement {
    pub store_and_unlock: bool,
    pub answer: Result<(), SwapServerError>,
}

/// The routing fee limit of a payout of `amount_msat`.
pub open spec fn fee_limit_spec(config: PayoutConfig, amount_msat: u64) -> int {
    config.fee_limit_base_msat + (if amount_msat * config.fee_limit_ppm > u64::MAX {
        u64::MAX as int
    } else {
        amount_msat * config.fee_limit_ppm
    }) / 1_000_000
}

/// The order of the payout stages.
pub open spec fn stage_rank(stage: PayoutStage) -> int {
    match stage {
        PayoutStage::Parameters => 0,
        PayoutStage::Swap => 1,
        PayoutStage::Txos => 2,
        PayoutStage::Height => 3,
        PayoutStage::Filter => 4,
        PayoutStage::ClaimCheck => 5,
        PayoutStage::Lock => 6,
        PayoutStage::Payment => 7,
    }
}

impl PayoutFlow {
    /// What the checks passed so far establish: the amount is whole
    /// satoshi, within the swap limits once those were read, the payout's
    /// delay limit follows from the swap's lock once the height was read,
    /// and the outputs add up to the amount once they were filtered.
    pub open spec fn wf(&self) -> bool {
        &&& self.amount_sat * 1000 == self.amount_msat
        &&& stage_rank(self.stage) >= 1 ==> amount_limits_outcome(
            self.amount_sat,
            self.parameters,
        ) is Ok
        &&& stage_rank(self.stage) >= 2 ==> self.swap is Some
        &&& self.stage == PayoutStage::Height ==> self.txos@.len() > 0
        &&& stage_rank(self.stage) >= 4 ==> payout_cltv_limit_spec(
            self.lock_time,
            self.confirmation_height,
            self.current_height,
            self.config.min_claim_blocks,
            self.cltv_delta,
            self.config.min_viable_cltv,
        ) == Ok::<u32, SwapServerError>(self.cltv_limit)
        &&& stage_rank(self.stage) >= 5 ==> sum_values(txo_values(self.txos@)) == self.amount_sat
        &&& stage_rank(self.stage) >= 6 ==> payout_claim_value(
            self.txos@,
            self.current_height,
            self.claim_fee_per_kw,
            self.config.dust_limit_sat,
        ) is Ok
    }
}

impl PayoutFlow {
    /// Starts a payout of the invoice with this text: the invoice must parse
    /// and carry an amount in whole satoshi.
    pub fn start(payment_request: &str, config: PayoutConfig) -> (r: Result<Self, SwapServerError>)
        ensures
            match spec_parse_invoice(payment_request@) {
                None => r == Err::<PayoutFlow, SwapServerError>(SwapServerError::InvalidPaymentRequest),
                Some(invoice) => payout_start_outcome(invoice, config, r),
            },
    {
        match parse_invoice(payment_request) {
            Some(invoice) => PayoutFlow::from_invoice(invoice, config),
            None => Err(SwapServerError::InvalidPaymentRequest),
        }
    }

    /// Starts a payout of a parsed invoice: it must carry an amount in whole
    /// satoshi.
    pub fn from_invoice(invoice: InvoiceFields, config: PayoutConfig) -> (r: Result<Self, SwapServerError>)
        ensures
            payout_start_outcome(invoice, config, r),
    {
        let amount_sat = invoice_amount_sat(invoice.amount_msat)?;
        let amount_msat = match invoice.amount_msat {
            Some(m) => m,
            None => 0,
        };
        Ok(
            PayoutFlow {
                config,
                stage: PayoutStage::Parameters,
                invoice,
                amount_msat,
                amount_sat,
                parameters: SwapParameters {
                    max_swap_amount_sat: 0,
                    min_swap_amount_sat: 0,
                    min_utxo_amount_sat: 0,
                },
                lock_time: 0,
                confirmation_height: 0,
                cltv_delta: 0,
                current_height: 0,
                cltv_limit: 0,
                txos: Vec::new(),
                claim_fee_per_kw: 0,
                swap: None,
            },
        )
    }

    /// Takes the swap limits: the amount must lie within them.
    pub fn on_parameters(&mut self, parameters: SwapParameters) -> (r: Result<(), SwapServerError>)
        requires
            old(self).stage == PayoutStage::Parameters,
            old(self).wf(),
        ensures
            final(self).wf(),
            r == amount_limits_outcome(old(self).amount_sat, parameters),
            final(self).parameters == parameters,
            r is Ok ==> final(self).stage == PayoutStage::Swap,
            r is Err ==> final(self).stage == old(self).stage,
            final(self).amount_sat == old(self).amount_sat,
            final(self).amount_msat == old(self).amount_msat,
            final(self).config == old(self).config,
    {
        self.parameters = parameters;
        let r = check_amount_limits(self.amount_sat, &parameters);
        if r.is_ok() {
            self.stage = PayoutStage::Swap;
        }
        r
    }

    /// Takes the fee estimate that the swap limits rest on: a failed
    /// estimate is an internal error; else the amount must lie within the
    /// limits at that estimate.
    pub fn on_limits_estimate(&mut self, estimate: Result<u32, FeeEstimateError>, max_swap_amount_sat: u64) -> (r:
        Result<(), SwapServerError>)
        requires
            old(self).stage == PayoutStage::Parameters,
            old(self).wf(),
        ensures
            final(self).wf(),
            match estimate {
                Err(_) => r == Err::<(), SwapServerError>(SwapServerError::Internal) && final(self).stage
                    == old(self).stage,
                Ok(f) => final(self).parameters.max_swap_amount_sat == max_swap_amount_sat
                    && final(self).parameters.min_swap_amount_sat == f * 3 / 2
                    && final(self).parameters.min_utxo_amount_sat == f * 3 / 2 && r
                    == amount_limits_outcome(old(self).amount_sat, final(self).parameters),
            },
            r is Ok ==> final(self).stage == PayoutStage::Swap,
            r is Err ==> final(self).stage == old(self).stage,
            final(self).amount_sat == old(self).amount_sat,
            final(self).amount_msat == old(self).amount_msat,
            final(self).config == old(self).config,
    {
        let parameters = swap_parameters_from_estimate(estimate, max_swap_amount_sat)?;
        self.on_parameters(parameters)
    }

    /// Takes the swap: it must not be paid yet, and the invoice's final
    /// delta must fit in 32 bits.
    pub fn on_swap(&mut self, state: SwapState) -> (r: Result<(), SwapServerError>)
        requires
            old(self).stage == PayoutStage::Swap,
            old(self).wf(),
        ensures
            final(self).wf(),
            state.preimage is Some ==> r == Err::<(), SwapServerError>(SwapServerError::AlreadyPaid),
            state.preimage is None && old(self).invoice.min_final_cltv_expiry_delta > u32::MAX ==> r
                == Err::<(), SwapServerError>(SwapServerError::CltvDeltaTooHigh),
            state.preimage is None && old(self).invoice.min_final_cltv_expiry_delta <= u32::MAX ==> r is Ok,
            r is Ok ==> final(self).stage == PayoutStage::Txos && final(self).lock_time
                == state.swap.public.lock_time && final(self).swap == Some(state.swap) && final(self).cltv_delta == old(self).invoice.min_final_cltv_expiry_delta,
            r is Err ==> final(self).stage == old(self).stage,
            final(self).invoice == old(self).invoice,
            final(self).amount_sat == old(self).amount_sat,
            final(self).amount_msat == old(self).amount_msat,
            final(self).parameters == old(self).parameters,
            final(self).config == old(self).config,
    {
        check_not_paid(state.preimage)?;
        let delta = invoice_cltv_delta(self.invoice.min_final_cltv_expiry_delta)?;
        self.lock_time = state.swap.public.lock_time;
        self.swap = Some(state.swap);
        self.cltv_delta = delta;
        self.stage = PayoutStage::Txos;
        Ok(())
    }

    /// Takes the outputs paid to the swap address: there must be some.
    pub fn on_txos(&mut self, txos: Vec<Txo>) -> (r: Result<(), SwapServerError>)
        requires
            old(self).stage == PayoutStage::Txos,
            old(self).wf(),
        ensures
            final(self).wf(),
            txos@.len() == 0 <==> r is Err,
            r is Err ==> r == Err::<(), SwapServerError>(SwapServerError::NoUtxos) && final(self).stage
                == old(self).stage,
            r is Ok ==> final(self).stage == PayoutStage::Height && final(self).txos@ == txos@,
            final(self).amount_sat == old(self).amount_sat,
            final(self).amount_msat == old(self).amount_msat,
            final(self).parameters == old(self).parameters,
            final(self).lock_time == old(self).lock_time,
            final(self).cltv_delta == old(self).cltv_delta,
            final(self).config == old(self).config,
    {
        if txos.len() == 0 {
            return Err(SwapServerError::NoUtxos);
        }
        self.txos = txos;
        self.stage = PayoutStage::Height;
        Ok(())
    }

    /// Takes the current height: the swap must leave room for a payout,
    /// counted from the lowest confirmation height of its outputs, and the
    /// payable outputs are kept for the chain filter.
    pub fn on_height(&mut self, current_height: u64) -> (r: Result<(), SwapServerError>)
        requires
            old(self).stage == PayoutStage::Height,
            old(self).wf(),
        ensures
            final(self).wf(),
            final(self).confirmation_height == min_block_height(old(self).txos@),
            forall|k: int|
                0 <= k < old(self).txos@.len() ==> final(self).confirmation_height
                    <= (#[trigger] old(self).txos@[k]).block_height,
            exists|k: int|
                0 <= k < old(self).txos@.len() && (#[trigger] old(self).txos@[k]).block_height
                    == final(self).confirmation_height,
            match payout_cltv_limit_spec(
                old(self).lock_time,
                min_block_height(old(self).txos@),
                current_height,
                old(self).config.min_claim_blocks,
                old(self).cltv_delta,
                old(self).config.min_viable_cltv,
            ) {
                Ok(limit) => r is Ok && final(self).txos@ == payable_spec(
                    old(self).txos@,
                    current_height,
                    old(self).config.min_confirmations,
                    old(self).parameters.min_utxo_amount_sat,
                    old(self).txos@.len() as int,
                ) && final(self).cltv_limit == limit && final(self).stage == PayoutStage::Filter
                    && final(self).current_height == current_height,
                Err(e) => r == Err::<(), SwapServerError>(e) && final(self).stage
                    == old(self).stage,
            },
            final(self).amount_sat == old(self).amount_sat,
            final(self).amount_msat == old(self).amount_msat,
            final(self).config == old(self).config,
    {
        let confirmation_height = min_confirmation_height(&self.txos);
        self.confirmation_height = confirmation_height;
        let limit = payout_cltv_limit(
            self.lock_time,
            confirmation_height,
            current_height,
            self.config.min_claim_blocks,
            self.cltv_delta,
            self.config.min_viable_cltv,
        )?;
        let mut txos: Vec<Txo> = Vec::new();
        std::mem::swap(&mut txos, &mut self.txos);
        let payable = payable_txos(
            txos,
            current_height,
            self.config.min_confirmations,
            self.parameters.min_utxo_amount_sat,
        );
        self.txos = payable;
        self.cltv_limit = limit;
        self.current_height = current_height;
        self.stage = PayoutStage::Filter;
        Ok(())
    }

    /// Takes, for each payable output, whether the chain filter found a
    /// filtered sender: the outputs without one are paid for, or all of them
    /// where any check failed. Their values must add up to the amount; they
    /// are then checked for a claim.
    pub fn on_filtered(&mut self, flagged: &Vec<Result<bool, ()>>) -> (r: Result<(), SwapServerError>)
        requires
            old(self).stage == PayoutStage::Filter,
            old(self).wf(),
            flagged@.len() == old(self).txos@.len(),
            sum_values(txo_values(filtered_or_all(old(self).txos@, flagged@))) <= u64::MAX,
        ensures
            final(self).wf(),
            sum_values(txo_values(filtered_or_all(old(self).txos@, flagged@))) == old(self).amount_sat
                <==> r is Ok,
            r is Err ==> r == Err::<(), SwapServerError>(SwapServerError::AmountMismatch)
                && final(self).stage == old(self).stage,
            r is Ok ==> final(self).stage == PayoutStage::ClaimCheck && final(self).txos@
                == filtered_or_all(old(self).txos@, flagged@),
            final(self).amount_sat == old(self).amount_sat,
            final(self).amount_msat == old(self).amount_msat,
            final(self).cltv_limit == old(self).cltv_limit,
            final(self).config == old(self).config,
    {
        let mut txos: Vec<Txo> = Vec::new();
        std::mem::swap(&mut txos, &mut self.txos);
        let kept = filter_or_keep(txos, flagged);
        let r = check_amount_matches(&kept, self.amount_sat);
        self.txos = kept;
        if r.is_ok() {
            self.stage = PayoutStage::ClaimCheck;
        }
        r
    }

    /// Takes the fee estimate for `PAYOUT_CLAIM_CONF_TARGET` blocks and
    /// builds and signs a claim of exactly the payout's outputs at that
    /// rate, with the placeholder preimage, to the placeholder destination:
    /// a swap whose outputs cannot be claimed is worth too little. A failed
    /// estimate is an internal error.
    pub fn on_claim_check<P: PrivateKeyProvider>(
        &mut self,
        service: &SwapService<P>,
        estimate: Result<u32, FeeEstimateError>,
    ) -> (r: Result<(), SwapServerError>)
        requires
            old(self).stage == PayoutStage::ClaimCheck,
            old(self).wf(),
            service.dust_limit_sat == old(self).config.dust_limit_sat,
            old(self).txos@.len() <= u32::MAX,
            unsigned_claim_weight(old(self).txos@.len() as nat, 22) <= usize::MAX,
            estimate matches Ok(f) ==> (claim_weight(
                unsigned_claim_weight(old(self).txos@.len() as nat, 22) as u64,
                old(self).txos@.len() as u64,
            ) <= u64::MAX ==> claim_weight(
                unsigned_claim_weight(old(self).txos@.len() as nat, 22) as u64,
                old(self).txos@.len() as u64,
            ) * f + 999 <= u64::MAX),
        ensures
            final(self).wf(),
            match estimate {
                Err(_) => r == Err::<(), SwapServerError>(SwapServerError::Internal),
                Ok(f) => (payout_claim_value(
                    old(self).txos@,
                    old(self).current_height,
                    f,
                    old(self).config.dust_limit_sat,
                ) is Err ==> r == Err::<(), SwapServerError>(SwapServerError::ValueTooLow)) && (r is Ok
                    ==> payout_claim_value(
                    old(self).txos@,
                    old(self).current_height,
                    f,
                    old(self).config.dust_limit_sat,
                ) is Ok && final(self).claim_fee_per_kw == f) && (r is Err ==> r == Err::<
                    (),
                    SwapServerError,
                >(SwapServerError::ValueTooLow)),
            },
            r is Err ==> final(self).stage == old(self).stage,
            r is Ok ==> final(self).stage == PayoutStage::Lock,
            final(self).amount_sat == old(self).amount_sat,
            final(self).amount_msat == old(self).amount_msat,
            final(self).cltv_limit == old(self).cltv_limit,
            final(self).txos@ == old(self).txos@,
            final(self).config == old(self).config,
    {
        let sat_per_kw = match estimate {
            Ok(f) => f,
            Err(_) => {
                return Err(SwapServerError::Internal);
            },
        };
        let ghost old_txos = self.txos@;
        let mut txos: Vec<Txo> = Vec::new();
        std::mem::swap(&mut txos, &mut self.txos);
        let claimables = match &self.swap {
            Some(swap) => payout_claimables(swap, txos),
            None => {
                self.txos = txos;
                return Err(SwapServerError::Internal);
            },
        };
        proof {
            assert(claimable_values(claimables@) =~= txo_values(old_txos));
        }
        let destination = payout_check_destination();
        let claim = service.create_claim_tx(&claimables, sat_per_kw, self.current_height, &destination);
        let back = claimed_outputs(claimables);
        proof {
            assert(back@ =~= old_txos);
        }
        self.txos = back;
        match claim {
            Ok(_) => {
                self.claim_fee_per_kw = sat_per_kw;
                self.stage = PayoutStage::Lock;
                Ok(())
            },
            Err(_) => Err(SwapServerError::ValueTooLow),
        }
    }

    /// Takes the outcome of locking the swap for the payment: a locked swap
    /// refuses the payout; else the payment is made with the limit on its
    /// delay and on its routing fee.
    pub fn on_locked(&mut self, locked: Result<(), LockSwapError>) -> (r: Result<
        PayoutPayment,
        SwapServerError,
    >)
        requires
            old(self).stage == PayoutStage::Lock,
            old(self).wf(),
            fee_limit_spec(old(self).config, old(self).amount_msat) <= u64::MAX,
        ensures
            final(self).wf(),
            match locked {
                Ok(()) => r matches Ok(p) && p.outpoints@ == txo_outpoints(old(self).txos@)
                    && p.payment_hash == old(self).invoice.payment_hash && p.amount_msat == old(
                    self,
                ).amount_msat && p.cltv_limit == old(self).cltv_limit && p.fee_limit_msat
                    == fee_limit_spec(old(self).config, old(self).amount_msat) as u64
                    && final(self).stage == PayoutStage::Payment,
                Err(LockSwapError::AlreadyLocked) => r == Err::<PayoutPayment, SwapServerError>(
                    SwapServerError::SwapLocked,
                ),
                Err(_) => r == Err::<PayoutPayment, SwapServerError>(SwapServerError::Internal),
            },
            r is Err ==> final(self).stage == old(self).stage,
            final(self).config == old(self).config,
    {
        match locked {
            Ok(()) => {},
            Err(e) => {
                return Err(lock_refusal(&e));
            },
        }
        let fee = fee_limit_msat(
            self.config.fee_limit_base_msat,
            self.amount_msat,
            self.config.fee_limit_ppm,
        );
        let outpoints = outpoints_of(&self.txos);
        self.stage = PayoutStage::Payment;
        Ok(
            PayoutPayment {
                outpoints,
                payment_hash: self.invoice.payment_hash,
                amount_msat: self.amount_msat,
                cltv_limit: self.cltv_limit,
                fee_limit_msat: fee,
            },
        )
    }

    /// What the payout does once the payment call returned: a returned
    /// result is stored and the payment lock released, and the payout is
    /// answered by it; where the call itself failed, the lock is kept, since
    /// the payment may still go through.
    pub fn on_paid(&self, result: &Result<PaymentResult, LightningError>) -> (r: PayoutSettlement)
        requires
            self.stage == PayoutStage::Payment,
        ensures
            r.store_and_unlock == (*result is Ok),
            (*result matches Ok(p) && p is Success) <==> r.answer is Ok,
            r.answer is Err ==> r.answer == Err::<(), SwapServerError>(SwapServerError::PaymentFailed),
    {
        match result {
            Ok(p) => PayoutSettlement { store_and_unlock: true, answer: pay_outcome(p) },
            Err(_) => PayoutSettlement { store_and_unlock: false, answer: Err(SwapServerError::PaymentFailed) },
        }
    }
}

/// A payout that reached its payment pays an invoice of whole satoshi,
/// within the swap limits, that the swap's outputs add up to exactly, and
/// with a delay limit that leaves the claim its blocks before the refund
/// path of the earliest output opens.
pub proof fn law_payout_payment_is_backed(flow: PayoutFlow)
    requires
        flow.wf(),
        flow.stage == PayoutStage::Payment,
    ensures
        flow.amount_sat * 1000 == flow.amount_msat,
        flow.parameters.min_swap_amount_sat <= flow.amount_sat <= flow.parameters.max_swap_amount_sat,
        sum_values(txo_values(flow.txos@)) == flow.amount_sat,
        0 < flow.cltv_limit,
        payout_claim_value(flow.txos@, flow.current_height, flow.claim_fee_per_kw, flow.config.dust_limit_sat)
            is Ok,
        flow.cltv_limit + flow.config.min_claim_blocks <= blocks_left_at(
            flow.lock_time,
            flow.confirmation_height,
            flow.current_height,
        ),
{
}

/// Where a refund stands: what it waits for next.
#[derive(Clone, Copy, Debug, PartialEq, Eq)]
pub enum RefundStage {
    /// The swap of the refund address.
    Swap,
    /// The outputs of the transactions that the refund's inputs spend.
    Prevouts,
    /// The server's partial signature.
    Sign,
    /// The refund lock on the swap.
    Lock,
    /// Whether the lightning node has a payment to the swap's hash.
    PaymentCheck,
    /// The refund was answered with the signature.
    Done,
}

/// The order of the refund stages.
pub open spec fn refund_rank(stage: RefundStage) -> int {
    match stage {
        RefundStage::Swap => 0,
        RefundStage::Prevouts => 1,
        RefundStage::Sign => 2,
        RefundStage::Lock => 3,
        RefundStage::PaymentCheck => 4,
        RefundStage::Done => 5,
    }
}

/// How a refund is answered once the payment check came back: the answer,
/// and whether the refund lock is released.
#[derive(Clone, Copy, Debug, PartialEq, Eq)]
pub struct RefundAnswer {
    pub answer: Result<([u8; 32], [u8; 66]), SwapServerError>,
    pub unlock: bool,
}

/// A refund in progress: each step takes what the server fetched and
/// checks it, in the order in which the server fetches.
pub struct RefundFlow {
    pub network: Network,
    pub stage: RefundStage,
    /// The refund transaction, encoded.
    pub tx: Vec<u8>,
    pub request: RefundRequest,
    /// The swap address that the refund names.
    pub address: String,
    pub swap: Option<Swap>,
    pub prevouts: Vec<TxOut>,
    pub signed: Option<([u8; 32], [u8; 66])>,
}

impl RefundFlow {
    /// What the checks passed so far establish: the request was read from
    /// the transaction; once the outputs were fetched, they are the ones the
    /// inputs spend and the signed input spends an output to the refund
    /// address; once signed, the signature is the server's for the swap.
    pub open spec fn wf(&self) -> bool {
        &&& spec_tx_previous_outputs(self.tx@) == Some(self.request.previous_outputs@)
        &&& self.request.input_index < self.request.previous_outputs@.len()
        &&& refund_rank(self.stage) >= 1 ==> self.swap is Some
        &&& refund_rank(self.stage) >= 2 ==> {
            &&& self.prevouts@.len() == self.request.previous_outputs@.len()
            &&& spec_address_from_script(
                self.prevouts@[self.request.input_index as int].script_pubkey@,
                self.network,
            ) == Some(self.address@)
        }
        &&& refund_rank(self.stage) >= 3 ==> (self.signed matches Some(signed) && refund_signed(
            self.swap->Some_0,
            self.tx@,
            prevout_views(self.prevouts@),
            self.request.input_index as int,
            self.request.their_pub_nonce,
            signed,
        ))
    }

    /// Starts a refund: the transaction, the user's nonce and the input
    /// index must be readable, and the address must belong to the network.
    pub fn start(tx: Vec<u8>, pub_nonce: &Vec<u8>, input_index: u32, address: &String, network: Network) -> (r:
        Result<Self, SwapServerError>)
        ensures
            match refund_request_outcome(tx@, pub_nonce@, input_index) {
                Err(e) => r == Err::<RefundFlow, SwapServerError>(e),
                Ok(()) => match spec_parse_address(address@, network) {
                    Some(Some(a)) => r matches Ok(f) && f.wf() && f.stage == RefundStage::Swap
                        && f.address@ == a && f.tx@ == tx@ && f.network == network
                        && f.request.input_index == input_index && f.request.their_pub_nonce@
                        == pub_nonce@,
                    _ => r == Err::<RefundFlow, SwapServerError>(SwapServerError::InvalidAddress),
                },
            },
    {
        let request = refund_request(&tx, pub_nonce, input_index)?;
        let address = refund_address(address, network)?;
        Ok(
            RefundFlow {
                network,
                stage: RefundStage::Swap,
                tx,
                request,
                address,
                swap: None,
                prevouts: Vec::new(),
                signed: None,
            },
        )
    }

    /// Takes the swap of the refund address.
    pub fn on_swap(&mut self, found: Result<SwapState, GetSwapsError>) -> (r: Result<(), SwapServerError>)
        requires
            old(self).stage == RefundStage::Swap,
            old(self).wf(),
        ensures
            final(self).wf(),
            match found {
                Ok(state) => r is Ok && final(self).stage == RefundStage::Prevouts
                    && final(self).swap == Some(state.swap),
                Err(e) => r == Err::<(), SwapServerError>(
                    if e is NotFound {
                        SwapServerError::SwapNotFound
                    } else {
                        SwapServerError::Internal
                    },
                ) && final(self).stage == old(self).stage,
            },
            final(self).tx@ == old(self).tx@,
            final(self).address@ == old(self).address@,
            final(self).request.input_index == old(self).request.input_index,
    {
        match found {
            Ok(state) => {
                self.swap = Some(state.swap);
                self.stage = RefundStage::Prevouts;
                Ok(())
            },
            Err(e) => Err(swap_lookup_refusal(&e)),
        }
    }

    /// Takes, for each input of the refund, the outputs of the transaction
    /// it spends from, as fetched; the signed input must spend an output to
    /// the refund address.
    pub fn on_prevouts(&mut self, fetched: Vec<Result<Vec<TxOut>, ()>>) -> (r: Result<(), SwapServerError>)
        requires
            old(self).stage == RefundStage::Prevouts,
            old(self).wf(),
            fetched@.len() == old(self).request.previous_outputs@.len(),
        ensures
            final(self).wf(),
            match refund_prevouts_spec(fetched@, old(self).request.previous_outputs@) {
                None => r == Err::<(), SwapServerError>(SwapServerError::InvalidTransactionInput),
                Some(views) => (spec_address_from_script(
                    views[old(self).request.input_index as int].1,
                    old(self).network,
                ) == Some(old(self).address@)) == (r is Ok),
            },
            r is Ok ==> final(self).stage == RefundStage::Sign,
            r is Err ==> r == Err::<(), SwapServerError>(SwapServerError::InvalidTransactionInput)
                && final(self).stage == old(self).stage,
            final(self).tx@ == old(self).tx@,
            final(self).address@ == old(self).address@,
    {
        let prevouts = refund_prevouts(&fetched, &self.request.previous_outputs)?;
        let index = self.request.input_index;
        proof {
            assert(refund_prevouts_spec(fetched@, self.request.previous_outputs@) is Some);
            assert(prevout_views(prevouts@).len() == prevouts@.len());
            assert(prevouts@.len() == self.request.previous_outputs@.len());
        }
        check_refund_prevout(&prevouts[index].script_pubkey, self.network, &self.address)?;
        self.prevouts = prevouts;
        self.stage = RefundStage::Sign;
        Ok(())
    }

    /// Partially signs the refund input for the swap; a failure to sign is
    /// an internal error.
    pub fn on_sign<P: PrivateKeyProvider>(&mut self, service: &SwapService<P>) -> (r: Result<
        (),
        SwapServerError,
    >)
        requires
            old(self).stage == RefundStage::Sign,
            old(self).wf(),
        ensures
            final(self).wf(),
            r is Ok ==> final(self).stage == RefundStage::Lock,
            r is Err ==> r == Err::<(), SwapServerError>(SwapServerError::Internal)
                && final(self).stage == old(self).stage,
            swap_tap_tweak(old(self).swap->Some_0) is None ==> r is Err,
    {
        let swap = match &self.swap {
            Some(s) => s,
            None => {
                return Err(SwapServerError::Internal);
            },
        };
        match service.partial_sign_refund_tx(
            swap,
            &self.tx,
            &self.prevouts,
            self.request.input_index,
            &self.request.their_pub_nonce,
        ) {
            Ok(signed) => {
                self.signed = Some(signed);
                self.stage = RefundStage::Lock;
                Ok(())
            },
            Err(_) => Err(SwapServerError::Internal),
        }
    }

    /// Draws the id that the refund lock is taken with: 32 random bytes in
    /// hexadecimal; a failed draw is an internal error.
    pub fn draw_refund_id<R: RandomProvider>(&self, random: &R) -> (r: Result<String, SwapServerError>)
        requires
            self.stage == RefundStage::Lock,
        ensures
            r matches Ok(id) ==> exists|b: [u8; 32]| #[trigger] hex_of(b@) == id@,
            r is Err ==> r == Err::<String, SwapServerError>(SwapServerError::Internal),
    {
        match random.rnd_32() {
            Ok(b) => {
                let id = hex_of_bytes(&b);
                assert(hex_of(b@) == id@);
                Ok(id)
            },
            Err(_) => Err(SwapServerError::Internal),
        }
    }

    /// Takes the outcome of locking the swap for the refund.
    pub fn on_locked(&mut self, locked: Result<(), LockSwapError>) -> (r: Result<(), SwapServerError>)
        requires
            old(self).stage == RefundStage::Lock,
            old(self).wf(),
        ensures
            final(self).wf(),
            match locked {
                Ok(()) => r is Ok && final(self).stage == RefundStage::PaymentCheck,
                Err(LockSwapError::AlreadyLocked) => r == Err::<(), SwapServerError>(
                    SwapServerError::SwapLocked,
                ) && final(self).stage == old(self).stage,
                Err(_) => r == Err::<(), SwapServerError>(SwapServerError::Internal)
                    && final(self).stage == old(self).stage,
            },
    {
        match locked {
            Ok(()) => {
                self.stage = RefundStage::PaymentCheck;
                Ok(())
            },
            Err(e) => Err(lock_refusal(&e)),
        }
    }

    /// Takes whether the lightning node has a pending or complete payment to
    /// the swap's hash: only without one is the refund answered with the
    /// server's signature and nonce, and the refund lock kept. Otherwise the
    /// server releases the refund lock.
    pub fn on_payment_check(&mut self, has_payment: Result<bool, ()>) -> (r: RefundAnswer)
        requires
            old(self).stage == RefundStage::PaymentCheck,
            old(self).wf(),
        ensures
            final(self).wf(),
            has_payment == Ok::<bool, ()>(false) <==> r.answer is Ok,
            r.unlock <==> !(has_payment == Ok::<bool, ()>(false)),
            r.answer matches Ok(signed) ==> old(self).signed == Some(signed) && final(self).stage
                == RefundStage::Done,
            has_payment == Ok::<bool, ()>(true) ==> r.answer == Err::<([u8; 32], [u8; 66]), SwapServerError>(
                SwapServerError::SwapLocked,
            ),
            has_payment is Err ==> r.answer == Err::<([u8; 32], [u8; 66]), SwapServerError>(
                SwapServerError::Internal,
            ),
            r.answer is Err ==> final(self).stage == old(self).stage,
    {
        match refund_payment_check(has_payment) {
            Ok(()) => {},
            Err(e) => {
                return RefundAnswer { answer: Err(e), unlock: true };
            },
        }
        match self.signed {
            Some(signed) => {
                self.stage = RefundStage::Done;
                RefundAnswer { answer: Ok(signed), unlock: false }
            },
            None => RefundAnswer { answer: Err(SwapServerError::Internal), unlock: false },
        }
    }
}

/// A refund that was answered was signed for an input of the refund
/// transaction that spends an output to the refund address, with the
/// server's partial signature for the swap of that address.
pub proof fn law_refund_signs_only_swap_outputs(flow: RefundFlow)
    requires
        flow.wf(),
        flow.stage == RefundStage::Done,
    ensures
        flow.request.input_index < flow.prevouts@.len(),
        spec_address_from_script(
            flow.prevouts@[flow.request.input_index as int].script_pubkey@,
            flow.network,
        ) == Some(flow.address@),
        flow.signed is Some,
        refund_signed(
            flow.swap->Some_0,
            flow.tx@,
            prevout_views(flow.prevouts@),
            flow.request.input_index as int,
            flow.request.their_pub_nonce,
            flow.signed->Some_0,
        ),
{
}

/// The outcome of reading a refund request.
pub open spec fn refund_request_outcome(tx: Seq<u8>, pub_nonce: Seq<u8>, input_index: u32) -> Result<
    (),
    SwapServerError,
> {
    match spec_tx_previous_outputs(tx) {
        None => Err(SwapServerError::InvalidTransaction),
        Some(outpoints) => if !(pub_nonce.len() == 66 && spec_is_pub_nonce(pub_nonce)) {
            Err(SwapServerError::InvalidPubNonce)
        } else if input_index >= outpoints.len() {
            Err(SwapServerError::InvalidInputIndex)
        } else {
            Ok(())
        },
    }
}

/// How a payout of a parsed invoice starts.
pub open spec fn payout_start_outcome(
    invoice: InvoiceFields,
    config: PayoutConfig,
    r: Result<PayoutFlow, SwapServerError>,
) -> bool {
    match invoice_amount_outcome(invoice.amount_msat) {
        Ok(sat) => r matches Ok(f) && f.wf() && f.stage == PayoutStage::Parameters && f.config
            == config && f.invoice == invoice && f.amount_sat == sat && Some(f.amount_msat)
            == invoice.amount_msat,
        Err(e) => r == Err::<PayoutFlow, SwapServerError>(e),
    }
}

/// Whether a claim of `txos` can be made at `sat_per_kw` (to a destination
/// script of 22 bytes, a pay-to-witness-key-hash script) at `current_height`:
/// the value it leaves, or why it cannot.
pub open spec fn payout_claim_value(
    txos: Seq<Txo>,
    current_height: u64,
    sat_per_kw: u32,
    dust_limit_sat: u64,
) -> Result<int, SwapError> {
    if (current_height as u32) >= LOCK_TIME_THRESHOLD {
        Err(SwapError::InvalidBlockHeight(current_height as u32))
    } else {
        claim_output_value_spec(
            sum_values(txo_values(txos)),
            unsigned_claim_weight(txos.len() as nat, 22) as int,
            txos.len() as int,
            sat_per_kw,
            dust_limit_sat,
        )
    }
}

/// The placeholder destination of the payout's claim check: a
/// pay-to-witness-key-hash script. Only its length counts in the check.
pub fn payout_check_destination() -> (r: Vec<u8>)
    ensures
        r@.len() == 22,
        r@[0] == 0 && r@[1] == 20,
{
    let mut r: Vec<u8> = Vec::new();
    r.push(0u8);
    r.push(20u8);
    let mut i: usize = 0;
    while i < 20
        invariant
            0 <= i <= 20,
            r@.len() == 2 + i,
            r@[0] == 0 && r@[1] == 20,
        decreases 20 - i,
    {
        r.push(0u8);
        i = i + 1;
    }
    r
}

/// The outpoints of outputs, in order.
pub open spec fn txo_outpoints(txos: Seq<Txo>) -> Seq<OutPoint> {
    Seq::new(txos.len(), |i: int| txos[i].outpoint)
}

/// The outpoints of outputs, in order.
pub fn outpoints_of(txos: &Vec<Txo>) -> (r: Vec<OutPoint>)
    ensures
        r@ == txo_outpoints(txos@),
{
    let mut r: Vec<OutPoint> = Vec::new();
    let mut i: usize = 0;
    while i < txos.len()
        invariant
            0 <= i <= txos@.len(),
            r@ == txo_outpoints(txos@).subrange(0, i as int),
        decreases txos@.len() - i,
    {
        r.push(txos[i].outpoint);
        assert(r@ =~= txo_outpoints(txos@).subrange(0, i + 1));
        i = i + 1;
    }
    assert(r@ =~= txo_outpoints(txos@));
    r
}

/// The settings of the earlier payout of a swap, which pays for outputs in
/// a window of confirmations.
#[derive(Clone, Copy, Debug, PartialEq, Eq)]
pub struct SwapPaymentConfig {
    pub max_swap_amount_sat: u64,
    pub min_confirmations: u32,
    pub min_redeem_blocks: u32,
    pub dust_limit_sat: u64,
}

/// Where an earlier payout stands: what it waits for next.
#[derive(Clone, Copy, Debug, PartialEq, Eq)]
pub enum SwapPaymentStage {
    /// The swap of the invoice's hash, with its lock time and outputs.
    SwapState,
    /// The current block height.
    Height,
    /// The outputs that the chain filter lets through.
    Filter,
    /// The fee estimate for the claim check.
    ClaimCheck,
    /// The result of the lightning payment.
    Payment,
}

/// The placeholder key of the earlier payout's claim check: 33 bytes of
/// 0x04, which is no compressed key, so that check never gets past it.
pub open spec fn placeholder_key() -> Seq<u8> {
    Seq::new(33, |i: int| 4u8)
}

/// An earlier payout in progress.
#[derive(Debug)]
pub struct SwapPaymentFlow {
    pub config: SwapPaymentConfig,
    pub stage: SwapPaymentStage,
    pub invoice: InvoiceFields,
    pub amount_sat: u64,
    pub lock_time: u32,
    pub txos: Vec<Txo>,
    pub current_height: u64,
}

impl SwapPaymentFlow {
    /// Starts an earlier payout of the invoice with this text: it must parse,
    /// carry an amount in whole satoshi, and stay within the largest deposit.
    pub fn start(payment_request: &str, config: SwapPaymentConfig) -> (r: Result<Self, SwapServerError>)
        ensures
            match spec_parse_invoice(payment_request@) {
                None => r == Err::<SwapPaymentFlow, SwapServerError>(SwapServerError::InvalidPaymentRequest),
                Some(invoice) => match invoice_amount_outcome(invoice.amount_msat) {
                    Err(e) => r == Err::<SwapPaymentFlow, SwapServerError>(e),
                    Ok(sat) => if sat > config.max_swap_amount_sat {
                        r == Err::<SwapPaymentFlow, SwapServerError>(SwapServerError::AmountAboveMaxDeposit)
                    } else {
                        r matches Ok(f) && f.stage == SwapPaymentStage::SwapState && f.invoice == invoice
                            && f.amount_sat == sat && f.config == config
                    },
                },
            },
    {
        let invoice = match parse_invoice(payment_request) {
            Some(i) => i,
            None => {
                return Err(SwapServerError::InvalidPaymentRequest);
            },
        };
        let amount_sat = invoice_amount_sat(invoice.amount_msat)?;
        if amount_sat > config.max_swap_amount_sat {
            return Err(SwapServerError::AmountAboveMaxDeposit);
        }
        Ok(
            SwapPaymentFlow {
                config,
                stage: SwapPaymentStage::SwapState,
                invoice,
                amount_sat,
                lock_time: 0,
                txos: Vec::new(),
                current_height: 0,
            },
        )
    }

    /// Takes the swap's lock time and outputs: the swap must exist and have
    /// outputs.
    pub fn on_swap_state(&mut self, found: Result<(u32, Vec<Txo>), GetSwapError>) -> (r: Result<
        (),
        SwapServerError,
    >)
        requires
            old(self).stage == SwapPaymentStage::SwapState,
        ensures
            match found {
                Err(GetSwapError::NotFound) => r == Err::<(), SwapServerError>(SwapServerError::SwapNotFound),
                Err(_) => r == Err::<(), SwapServerError>(SwapServerError::Internal),
                Ok((lock_time, txos)) => if txos@.len() == 0 {
                    r == Err::<(), SwapServerError>(SwapServerError::NoUtxos)
                } else {
                    r is Ok && final(self).stage == SwapPaymentStage::Height && final(self).lock_time
                        == lock_time && final(self).txos@ == txos@
                },
            },
            r is Err ==> final(self).stage == old(self).stage,
            final(self).amount_sat == old(self).amount_sat,
            final(self).config == old(self).config,
            final(self).invoice == old(self).invoice,
    {
        match found {
            Err(GetSwapError::NotFound) => Err(SwapServerError::SwapNotFound),
            Err(_) => Err(SwapServerError::Internal),
            Ok((lock_time, txos)) => {
                if txos.len() == 0 {
                    return Err(SwapServerError::NoUtxos);
                }
                self.lock_time = lock_time;
                self.txos = txos;
                self.stage = SwapPaymentStage::Height;
                Ok(())
            },
        }
    }

    /// Takes the current height: the outputs in the window of confirmations
    /// are kept for the chain filter.
    pub fn on_height(&mut self, current_height: u64)
        requires
            old(self).stage == SwapPaymentStage::Height,
        ensures
            old(self).lock_time < old(self).config.min_redeem_blocks ==> final(self).txos@.len() == 0,
            old(self).lock_time >= old(self).config.min_redeem_blocks ==> final(self).txos@ == window_spec(
                old(self).txos@,
                current_height,
                old(self).config.min_confirmations,
                (old(self).lock_time - old(self).config.min_redeem_blocks) as u32,
                old(self).txos@.len() as int,
            ),
            final(self).stage == SwapPaymentStage::Filter,
            final(self).current_height == current_height,
            final(self).amount_sat == old(self).amount_sat,
            final(self).config == old(self).config,
            final(self).invoice == old(self).invoice,
    {
        let mut txos: Vec<Txo> = Vec::new();
        std::mem::swap(&mut txos, &mut self.txos);
        let window = utxos_in_confirmation_window(
            txos,
            current_height,
            self.config.min_confirmations,
            self.lock_time,
            self.config.min_redeem_blocks,
        );
        self.txos = window;
        self.current_height = current_height;
        self.stage = SwapPaymentStage::Filter;
    }

    /// Takes, for each output in the window, whether the chain filter found
    /// a filtered sender: the outputs without one count, or all of them
    /// where any check failed. Their values must add up to the amount.
    pub fn on_filtered(&mut self, flagged: &Vec<Result<bool, ()>>) -> (r: Result<(), SwapServerError>)
        requires
            old(self).stage == SwapPaymentStage::Filter,
            flagged@.len() == old(self).txos@.len(),
            sum_values(txo_values(filtered_or_all(old(self).txos@, flagged@))) <= u64::MAX,
        ensures
            sum_values(txo_values(filtered_or_all(old(self).txos@, flagged@))) == old(self).amount_sat
                <==> r is Ok,
            r is Err ==> r == Err::<(), SwapServerError>(SwapServerError::AmountMismatch)
                && final(self).stage == old(self).stage,
            r is Ok ==> final(self).stage == SwapPaymentStage::ClaimCheck && final(self).txos@
                == filtered_or_all(old(self).txos@, flagged@),
            final(self).amount_sat == old(self).amount_sat,
            final(self).current_height == old(self).current_height,
            final(self).config == old(self).config,
            final(self).invoice == old(self).invoice,
    {
        let mut txos: Vec<Txo> = Vec::new();
        std::mem::swap(&mut txos, &mut self.txos);
        let kept = filter_or_keep(txos, flagged);
        let r = check_amount_matches(&kept, self.amount_sat);
        self.txos = kept;
        if r.is_ok() {
            self.stage = SwapPaymentStage::ClaimCheck;
        }
        r
    }

    /// Takes the fee estimate for `PAYOUT_CLAIM_CONF_TARGET` blocks: a
    /// failed estimate is an internal error, and so is the placeholder key
    /// that the claim check builds its destination from where it is no key;
    /// else the outputs must be claimable at that rate.
    pub fn on_claim_check(&mut self, estimate: Result<u32, FeeEstimateError>) -> (r: Result<
        (),
        SwapServerError,
    >)
        requires
            old(self).stage == SwapPaymentStage::ClaimCheck,
            old(self).txos@.len() <= u32::MAX,
            sum_values(txo_values(old(self).txos@)) == old(self).amount_sat,
            unsigned_claim_weight(old(self).txos@.len() as nat, 22) <= usize::MAX,
            estimate matches Ok(f) ==> (claim_weight(
                unsigned_claim_weight(old(self).txos@.len() as nat, 22) as u64,
                old(self).txos@.len() as u64,
            ) <= u64::MAX ==> claim_weight(
                unsigned_claim_weight(old(self).txos@.len() as nat, 22) as u64,
                old(self).txos@.len() as u64,
            ) * f + 999 <= u64::MAX),
        ensures
            match estimate {
                Err(_) => r == Err::<(), SwapServerError>(SwapServerError::Internal),
                Ok(f) => if spec_parse_public_key(placeholder_key()) is None {
                    r == Err::<(), SwapServerError>(SwapServerError::Internal)
                } else {
                    (payout_claim_value(
                        old(self).txos@,
                        old(self).current_height,
                        f,
                        old(self).config.dust_limit_sat,
                    ) is Ok <==> r is Ok) && (r is Err ==> r == Err::<(), SwapServerError>(
                        SwapServerError::ValueTooLow,
                    ))
                },
            },
            r is Ok ==> final(self).stage == SwapPaymentStage::Payment,
            r is Err ==> final(self).stage == old(self).stage,
            final(self).invoice == old(self).invoice,
    {
        let sat_per_kw = match estimate {
            Ok(f) => f,
            Err(_) => {
                return Err(SwapServerError::Internal);
            },
        };
        let key: Vec<u8> = vec![4u8; 33];
        assert(key@ =~= placeholder_key());
        if parse_public_key(&key).is_none() {
            return Err(SwapServerError::Internal);
        }
        if claim_lock_time(self.current_height).is_err() {
            return Err(SwapServerError::ValueTooLow);
        }
        let destination = payout_check_destination();
        let base_weight = unsigned_tx_weight(self.txos.len(), &destination);
        let n = self.txos.len() as u64;
        assert(CLAIM_INPUT_WITNESS_SIZE * n <= u64::MAX) by (nonlinear_arith)
            requires
                n <= u32::MAX,
                CLAIM_INPUT_WITNESS_SIZE == 209,
        ;
        match claim_output_value(self.amount_sat, base_weight, n, sat_per_kw, self.config.dust_limit_sat) {
            Ok(_) => {},
            Err(_) => {
                return Err(SwapServerError::ValueTooLow);
            },
        }
        self.stage = SwapPaymentStage::Payment;
        Ok(())
    }

    /// The answer of the earlier payout once the payment ended: the preimage
    /// to store, or a failed payment.
    pub fn on_paid(&self, result: Result<[u8; 32], LightningError>) -> (r: Result<[u8; 32], SwapServerError>)
        requires
            self.stage == SwapPaymentStage::Payment,
        ensures
            match result {
                Ok(p) => r == Ok::<[u8; 32], SwapServerError>(p),
                Err(_) => r == Err::<[u8; 32], SwapServerError>(SwapServerError::PaymentFailed),
            },
    {
        match result {
            Ok(p) => Ok(p),
            Err(_) => Err(SwapServerError::PaymentFailed),
        }
    }
}

/// The outcome of reading an invoice's amount.
pub open spec fn invoice_amount_outcome(amount_msat: Option<u64>) -> Result<u64, SwapServerError> {
    match amount_msat {
        None => Err(SwapServerError::MissingAmount),
        Some(m) => if m % 1000 != 0 {
            Err(SwapServerError::AmountNotRoundSat)
        } else {
            Ok((m / 1000) as u64)
        },
    }
}

/// The outcome of checking an amount against the swap limits.
pub open spec fn amount_limits_outcome(amount_sat: u64, p: SwapParameters) -> Result<(), SwapServerError> {
    if amount_sat > p.max_swap_amount_sat {
        Err(SwapServerError::AmountAboveMax)
    } else if amount_sat < p.min_swap_amount_sat {
        Err(SwapServerError::AmountBelowMin)
    } else {
        Ok(())
    }
}

} // verus!
