use std::sync::Arc;

use swapd::chain::types::Network;
use swapd::swap::privkey_provider::RandomPrivateKeyProvider;
use swapd::swap::random_provider::{RandomError, RandomProvider};
use swapd::swap::swap_service::{PaymentHash, SwapService, SwapState};

struct FixedRandom([u8; 32]);

impl RandomProvider for FixedRandom {
    fn rnd_32(&self) -> Result<[u8; 32], RandomError> {
        Ok(self.0)
    }
}

/// The swap service of the payouts: lock time 210, dust limit 546.
fn service() -> SwapService<RandomPrivateKeyProvider<FixedRandom>> {
    SwapService::new(Network::Regtest, RandomPrivateKeyProvider::new(Arc::new(FixedRandom([3; 32]))), 210, 546)
}

fn swap_state(preimage: Option<[u8; 32]>) -> SwapState {
    let secp = bitcoin::secp256k1::Secp256k1::new();
    let refund_key = bitcoin::secp256k1::SecretKey::from_slice(&[2; 32]).unwrap();
    let refund = bitcoin::secp256k1::PublicKey::from_secret_key(&secp, &refund_key).serialize();
    let swap = service().create_swap(refund, PaymentHash { bytes: [9; 32] }, 1000, 0).unwrap();
    SwapState { swap, preimage }
}

use swapd::chain::types::{BlockHash, OutPoint, TxOut, Txid, Txo};
use swapd::chain::fee_estimator::FeeEstimateError;
use swapd::lightning::{InvoiceFields, LightningError, PaymentResult};
use swapd::public_server::{
    swap_parameters, PayoutConfig, PayoutFlow, PayoutPayment, PayoutSettlement, PayoutStage,
    SwapServerError,
};
use swapd::swap::swap_repository::LockSwapError;

fn config() -> PayoutConfig {
    PayoutConfig {
        min_confirmations: 1,
        min_claim_blocks: 72,
        min_viable_cltv: 18,
        fee_limit_base_msat: 1_000,
        fee_limit_ppm: 5_000,
        dust_limit_sat: 546,
    }
}

fn invoice(amount_msat: Option<u64>, delta: u64) -> InvoiceFields {
    InvoiceFields {
        amount_msat,
        payment_hash: [9; 32],
        min_final_cltv_expiry_delta: delta,
        payee_pubkey: [2; 33],
    }
}

fn output(height: u64, value: u64, n: u8) -> Txo {
    Txo {
        block_hash: BlockHash::from_bytes([n; 32]),
        block_height: height,
        outpoint: OutPoint::new(Txid { bytes: [n; 32] }, 0),
        tx_out: TxOut { value_sat: value, script_pubkey: vec![] },
    }
}


/// Brings a payout of 10 000 sat up to the filter stage, at height 1000,
/// with a lock time of 210 blocks counted from the earliest output, at 990.
fn flow_at_filter() -> PayoutFlow {
    let mut flow = PayoutFlow::from_invoice(invoice(Some(10_000_000), 40), config()).unwrap();
    flow.on_parameters(swap_parameters(1000, 4_000_000)).unwrap();
    flow.on_swap(swap_state(None)).unwrap();
    flow.on_txos(vec![output(990, 6_000, 1), output(1000, 4_000, 2), output(995, 100, 3)])
        .unwrap();
    flow.on_height(1000).unwrap();
    flow
}

#[test]
fn payout_runs_through_every_check() {
    let mut flow = flow_at_filter();
    assert_eq!(flow.stage, PayoutStage::Filter);
    // The output below the minimum value is not payable.
    let values: Vec<u64> = flow.txos.iter().map(|t| t.tx_out.value_sat).collect();
    assert_eq!(values, vec![6_000, 4_000]);
    // 200 blocks left, 72 kept for the claim.
    assert_eq!(flow.cltv_limit, 128);
    // The chain filter found no filtered sender.
    flow.on_filtered(&vec![Ok(false), Ok(false)]).unwrap();
    flow.on_claim_check(&service(), Ok(1_000)).unwrap();
    assert_eq!(flow.claim_fee_per_kw, 1_000);
    let payment = flow.on_locked(Ok(())).unwrap();
    assert_eq!(
        payment,
        PayoutPayment {
            outpoints: vec![
                OutPoint::new(Txid { bytes: [1; 32] }, 0),
                OutPoint::new(Txid { bytes: [2; 32] }, 0)
            ],
            payment_hash: [9; 32],
            amount_msat: 10_000_000,
            cltv_limit: 128,
            fee_limit_msat: 51_000
        }
    );
    assert_eq!(flow.stage, PayoutStage::Payment);
    // The payment is backed by outputs that add up to the invoice amount.
    let sum: u64 = flow.txos.iter().map(|t| t.tx_out.value_sat).sum();
    assert_eq!(sum * 1000, flow.amount_msat);
    assert!(flow.cltv_limit + flow.config.min_claim_blocks <= 990 + 210 - 1000);
    // A returned result is stored and the lock released; a failed call
    // keeps the lock.
    assert_eq!(
        flow.on_paid(&Ok(PaymentResult::Success { preimage: [7; 32] })),
        PayoutSettlement { store_and_unlock: true, answer: Ok(()) }
    );
    assert_eq!(
        flow.on_paid(&Ok(PaymentResult::Failure { error: "no route".to_string() })),
        PayoutSettlement { store_and_unlock: true, answer: Err(SwapServerError::PaymentFailed) }
    );
    assert_eq!(
        flow.on_paid(&Err(LightningError::NoRoute)),
        PayoutSettlement { store_and_unlock: false, answer: Err(SwapServerError::PaymentFailed) }
    );
}

#[test]
fn payout_refuses_a_bad_invoice() {
    assert!(matches!(
        PayoutFlow::from_invoice(invoice(None, 40), config()),
        Err(SwapServerError::MissingAmount)
    ));
    assert!(matches!(
        PayoutFlow::from_invoice(invoice(Some(10_500), 40), config()),
        Err(SwapServerError::AmountNotRoundSat)
    ));
    assert!(matches!(
        PayoutFlow::start("lnbc1notaninvoice", config()),
        Err(SwapServerError::InvalidPaymentRequest)
    ));
    let mut flow = PayoutFlow::from_invoice(invoice(Some(5_000_000_000), 40), config()).unwrap();
    assert!(matches!(
        flow.on_parameters(swap_parameters(1000, 4_000_000)),
        Err(SwapServerError::AmountAboveMax)
    ));
    assert_eq!(flow.stage, PayoutStage::Parameters);
    let mut flow = PayoutFlow::from_invoice(invoice(Some(1_000), 40), config()).unwrap();
    assert!(matches!(
        flow.on_parameters(swap_parameters(1000, 4_000_000)),
        Err(SwapServerError::AmountBelowMin)
    ));
}

#[test]
fn payout_refuses_a_paid_or_expired_swap() {
    let mut flow = PayoutFlow::from_invoice(invoice(Some(10_000_000), u32::MAX as u64 + 1), config()).unwrap();
    flow.on_parameters(swap_parameters(1000, 4_000_000)).unwrap();
    assert!(matches!(flow.on_swap(swap_state(None)), Err(SwapServerError::CltvDeltaTooHigh)));
    let mut flow = PayoutFlow::from_invoice(invoice(Some(10_000_000), 40), config()).unwrap();
    flow.on_parameters(swap_parameters(1000, 4_000_000)).unwrap();
    assert!(matches!(flow.on_swap(swap_state(Some([1; 32]))), Err(SwapServerError::AlreadyPaid)));
    assert_eq!(flow.stage, PayoutStage::Swap);
    flow.on_swap(swap_state(None)).unwrap();
    assert!(matches!(flow.on_txos(vec![]), Err(SwapServerError::NoUtxos)));
    flow.on_txos(vec![output(990, 10_000, 1)]).unwrap();
    // 100 blocks left leave 28 after the claim, too few for a delta of 40.
    assert!(matches!(flow.on_height(1100), Err(SwapServerError::SwapExpired)));
    assert_eq!(flow.stage, PayoutStage::Height);
}

#[test]
fn payout_counts_the_lock_from_the_earliest_confirmation() {
    let mut flow = PayoutFlow::from_invoice(invoice(Some(10_000_000), 40), config()).unwrap();
    flow.on_parameters(swap_parameters(1000, 4_000_000)).unwrap();
    flow.on_swap(swap_state(None)).unwrap();
    flow.on_txos(vec![output(1090, 6_000, 1), output(1080, 4_000, 2)]).unwrap();
    flow.on_height(1100).unwrap();
    assert_eq!(flow.confirmation_height, 1080);
    // 1080 + 210 - 1100 = 190 blocks left, 72 kept for the claim.
    assert_eq!(flow.cltv_limit, 118);
}

#[test]
fn payout_refuses_mismatched_or_unclaimable_outputs() {
    let mut flow = flow_at_filter();
    // The filter drops the second output's sender: 6 000 sat is not enough.
    assert!(matches!(
        flow.on_filtered(&vec![Ok(false), Ok(true)]),
        Err(SwapServerError::AmountMismatch)
    ));
    assert_eq!(flow.txos.len(), 1);
    let mut flow = flow_at_filter();
    // A failed check keeps every payable output.
    flow.on_filtered(&vec![Ok(true), Err(())]).unwrap();
    assert_eq!(flow.txos.len(), 2);
    assert!(matches!(
        flow.on_claim_check(&service(), Err(FeeEstimateError::Unavailable)),
        Err(SwapServerError::Internal)
    ));
    // At 20 000 sat/kw the claim's fee of 18 200 sat takes all 10 000 sat.
    assert!(matches!(flow.on_claim_check(&service(), Ok(20_000)), Err(SwapServerError::ValueTooLow)));
    assert_eq!(flow.stage, PayoutStage::ClaimCheck);
    // At 10 000 sat/kw the fee of 9 100 sat leaves 900 sat, above the dust limit.
    flow.on_claim_check(&service(), Ok(10_000)).unwrap();
    assert!(matches!(
        flow.on_locked(Err(LockSwapError::AlreadyLocked)),
        Err(SwapServerError::SwapLocked)
    ));
    assert_eq!(flow.stage, PayoutStage::Lock);
}

/// A regtest invoice for `amount_msat`, signed by the node key with seed 5.
fn signed_invoice(amount_msat: u64) -> String {
    let secp = bitcoin::secp256k1::Secp256k1::new();
    let node_key = bitcoin::secp256k1::SecretKey::from_slice(&[5; 32]).unwrap();
    let hash = <bitcoin::hashes::sha256::Hash as bitcoin::hashes::Hash>::from_byte_array([9; 32]);
    lightning_invoice::InvoiceBuilder::new(lightning_invoice::Currency::Regtest)
        .description("swap".to_string())
        .payment_hash(hash)
        .payment_secret(lightning_invoice::PaymentSecret([1; 32]))
        .duration_since_epoch(std::time::Duration::from_secs(1_700_000_000))
        .min_final_cltv_expiry_delta(40)
        .amount_milli_satoshis(amount_msat)
        .build_signed(|m| secp.sign_ecdsa_recoverable(m, &node_key))
        .unwrap()
        .to_string()
}

#[test]
fn payout_reads_the_invoice_text() {
    let text = signed_invoice(10_000_000);
    let flow = PayoutFlow::start(&text, config()).unwrap();
    assert_eq!(flow.amount_sat, 10_000);
    assert_eq!(flow.invoice.payment_hash, [9; 32]);
    assert_eq!(flow.invoice.min_final_cltv_expiry_delta, 40);
    let secp = bitcoin::secp256k1::Secp256k1::new();
    let node_key = bitcoin::secp256k1::SecretKey::from_slice(&[5; 32]).unwrap();
    assert_eq!(flow.invoice.payee_pubkey, node_key.public_key(&secp).serialize());
    assert!(matches!(
        PayoutFlow::start(&signed_invoice(10_000_500), config()),
        Err(SwapServerError::AmountNotRoundSat)
    ));
}

use swapd::public_server::{SwapPaymentConfig, SwapPaymentFlow, SwapPaymentStage};
use swapd::swap::swap_repository::{AddPreimageError, GetSwapError};

fn deposit_config() -> SwapPaymentConfig {
    SwapPaymentConfig {
        max_swap_amount_sat: 100_000,
        min_confirmations: 1,
        min_redeem_blocks: 72,
        dust_limit_sat: 546,
    }
}

#[test]
fn earlier_payout_checks_its_steps() {
    assert!(matches!(
        SwapPaymentFlow::start(&signed_invoice(200_000_000), deposit_config()),
        Err(SwapServerError::AmountAboveMaxDeposit)
    ));
    assert_eq!(SwapServerError::AmountAboveMaxDeposit.message(), "amount exceeds maximum allowed deposit");
    assert!(matches!(
        SwapPaymentFlow::start("not an invoice", deposit_config()),
        Err(SwapServerError::InvalidPaymentRequest)
    ));
    let mut flow = SwapPaymentFlow::start(&signed_invoice(10_000_000), deposit_config()).unwrap();
    assert_eq!(flow.amount_sat, 10_000);
    assert!(matches!(flow.on_swap_state(Err(GetSwapError::NotFound)), Err(SwapServerError::SwapNotFound)));
    assert!(matches!(
        flow.on_swap_state(Err(GetSwapError::General("db".to_string()))),
        Err(SwapServerError::Internal)
    ));
    assert!(matches!(flow.on_swap_state(Ok((288, vec![]))), Err(SwapServerError::NoUtxos)));
    flow.on_swap_state(Ok((288, vec![output(990, 6_000, 1), output(995, 4_000, 2), output(500, 1, 3)]))).unwrap();
    // Lock time 288 less 72 blocks for redeeming: 1 to 216 blocks deep.
    flow.on_height(1000);
    let values: Vec<u64> = flow.txos.iter().map(|t| t.tx_out.value_sat).collect();
    assert_eq!(values, vec![6_000, 4_000]);
    assert_eq!(flow.stage, SwapPaymentStage::Filter);
    // A failed check keeps both outputs of the window.
    flow.on_filtered(&vec![Err(()), Ok(true)]).unwrap();
    assert_eq!(flow.txos.len(), 2);
    assert!(matches!(flow.on_claim_check(Err(FeeEstimateError::Unavailable)), Err(SwapServerError::Internal)));
    // The placeholder key of this check is no key: the check ends there.
    assert!(matches!(flow.on_claim_check(Ok(1_000)), Err(SwapServerError::Internal)));
    let _ = AddPreimageError::DoesNotExist;
}

#[test]
fn earlier_payout_counts_only_unfiltered_outputs() {
    let mut flow = SwapPaymentFlow::start(&signed_invoice(6_000_000), deposit_config()).unwrap();
    flow.on_swap_state(Ok((288, vec![output(990, 6_000, 1), output(995, 4_000, 2)]))).unwrap();
    flow.on_height(1000);
    assert!(matches!(flow.on_filtered(&vec![Ok(true), Ok(false)]), Err(SwapServerError::AmountMismatch)));
    let mut flow = SwapPaymentFlow::start(&signed_invoice(6_000_000), deposit_config()).unwrap();
    flow.on_swap_state(Ok((288, vec![output(990, 6_000, 1), output(995, 4_000, 2)]))).unwrap();
    flow.on_height(1000);
    flow.on_filtered(&vec![Ok(false), Ok(true)]).unwrap();
    assert_eq!(flow.txos.len(), 1);
    assert_eq!(flow.txos[0].tx_out.value_sat, 6_000);
}

#[test]
fn payout_limits_rest_on_a_fee_estimate() {
    let mut flow = PayoutFlow::from_invoice(invoice(Some(10_000_000), 40), config()).unwrap();
    assert!(matches!(
        flow.on_limits_estimate(Err(FeeEstimateError::Unavailable), 4_000_000),
        Err(SwapServerError::Internal)
    ));
    assert_eq!(flow.stage, PayoutStage::Parameters);
    // At 10 000 sat/kw the smallest swap is 15 000 sat.
    assert!(matches!(flow.on_limits_estimate(Ok(10_000), 4_000_000), Err(SwapServerError::AmountBelowMin)));
    assert_eq!(flow.parameters.min_swap_amount_sat, 15_000);
    flow.on_limits_estimate(Ok(1_000), 4_000_000).unwrap();
    assert_eq!(flow.parameters, swap_parameters(1_000, 4_000_000));
    assert_eq!(flow.stage, PayoutStage::Swap);
}

#[test]
fn payout_claim_check_signs_the_claim() {
    let mut flow = PayoutFlow::from_invoice(invoice(Some(10_000_000), 40), config()).unwrap();
    flow.on_parameters(swap_parameters(1000, 4_000_000)).unwrap();
    let mut state = swap_state(None);
    // A claim key that is no secret key cannot sign the claim.
    state.swap.private.claim_privkey = [0; 32];
    flow.on_swap(state).unwrap();
    flow.on_txos(vec![output(990, 6_000, 1), output(1000, 4_000, 2)]).unwrap();
    flow.on_height(1000).unwrap();
    flow.on_filtered(&vec![Ok(false), Ok(false)]).unwrap();
    assert!(matches!(flow.on_claim_check(&service(), Ok(1_000)), Err(SwapServerError::ValueTooLow)));
    assert_eq!(flow.stage, PayoutStage::ClaimCheck);
    assert_eq!(flow.txos.len(), 2);
}
