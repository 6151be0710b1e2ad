use swapd::chain::client::{BroadcastError, ChainError};
use swapd::chain::memchain::Chain;
use swapd::chain::monitor::{reorged_blocks, sync_start, sync_step, SyncAction};
use swapd::chain::types::{BlockHash, BlockHeader, OutPoint, TxOut, Txid, Txo};
use swapd::claim::monitor::{plan_claims, rebroadcast_outcome, MIN_REPLACEMENT_DIFF_SAT_PER_KW};
use swapd::claim::preimage_monitor::hashes_without_preimage;
use swapd::claim::repository::Claim;
use swapd::lightning::{LightningError, PaymentResult, PaymentState};
use swapd::swap::payment_monitor::{attempt_action, AttemptAction};
use swapd::swap::swap_service::{
    ClaimableUtxo, PaymentHash, Swap, SwapPrivateData, SwapPublicData, SwapState,
};

fn hash(tag: u8, height: u8) -> BlockHash {
    let mut bytes = [height; 32];
    bytes[0] = tag;
    BlockHash::from_bytes(bytes)
}

/// A header of branch `tag` at `height` whose parent is on branch `parent_tag`.
fn header(tag: u8, parent_tag: u8, height: u8) -> BlockHeader {
    BlockHeader {
        hash: hash(tag, height),
        height: height as u64,
        prev: hash(parent_tag, height - 1),
    }
}

fn chain_of(tag: u8, from: u8, to: u8) -> Chain {
    let mut chain = Chain::new(header(tag, tag, from));
    for h in from + 1..=to {
        chain.append(header(tag, tag, h)).unwrap();
    }
    chain
}

#[test]
fn chain_rebuilds_from_its_backward_listing() {
    let chain = chain_of(1, 1, 5);
    let rebuilt = Chain::try_from(chain.iter_backwards()).unwrap();
    assert_eq!(rebuilt.iter_forwards(), chain.iter_forwards());
    assert!(matches!(Chain::try_from(vec![]), Err(ChainError::EmptyChain)));
    assert!(matches!(
        Chain::try_from(chain.iter_forwards()),
        Err(ChainError::InvalidChain)
    ));
}

#[test]
fn retip_keeps_base_and_takes_other_tip() {
    let mut chain = chain_of(1, 1, 5);
    let mut other = Chain::new(header(1, 1, 3));
    other.append(header(2, 1, 4)).unwrap();
    other.append(header(2, 2, 5)).unwrap();
    other.append(header(2, 2, 6)).unwrap();
    chain.retip(&other).unwrap();
    assert_eq!(chain.base().hash, hash(1, 1));
    assert_eq!(chain.tip().hash, hash(2, 6));
    assert_eq!(chain.iter_forwards().len(), 6);
}

#[test]
fn rebase_keeps_tip_and_takes_other_base() {
    let mut chain = chain_of(1, 4, 6);
    let other = chain_of(1, 1, 3);
    chain.rebase(&other).unwrap();
    assert_eq!(chain.tip().hash, hash(1, 6));
    assert_eq!(chain.base().hash, hash(1, 1));
    assert_eq!(chain.iter_forwards().len(), 6);
}

#[test]
fn sync_walks_back_to_a_known_block_and_retips() {
    let existing = chain_of(1, 1, 5);
    // The best chain forks off after block 3.
    let best = vec![header(2, 1, 4), header(2, 2, 5), header(2, 2, 6)];
    let (mut found, mut action) = sync_start(&existing, best[2]);
    let mut fetched = 1;
    while let SyncAction::FetchHeader(wanted) = action {
        let next = if fetched < best.len() {
            best[best.len() - 1 - fetched]
        } else {
            header(1, 1, 3)
        };
        assert_eq!(next.hash, wanted);
        action = sync_step(&existing, &mut found, next).unwrap();
        fetched += 1;
    }
    assert_eq!(found.base().hash, hash(1, 3));
    let undo = reorged_blocks(&existing, &found);
    assert_eq!(undo, vec![hash(1, 5), hash(1, 4)]);
    let mut known = existing.clone();
    known.retip(&found).unwrap();
    assert_eq!(known.tip().hash, hash(2, 6));
    assert_eq!(known.base().hash, hash(1, 1));
}

#[test]
fn sync_on_the_known_tip_undoes_nothing() {
    let existing = chain_of(1, 1, 5);
    let (found, action) = sync_start(&existing, header(1, 1, 5));
    assert_eq!(action, SyncAction::Done);
    assert!(reorged_blocks(&existing, &found).is_empty());
}

#[test]
fn sync_refuses_a_header_that_does_not_link() {
    let existing = chain_of(1, 1, 5);
    let (mut found, _) = sync_start(&existing, header(2, 2, 8));
    assert!(matches!(
        sync_step(&existing, &mut found, header(2, 2, 5)),
        Err(ChainError::InvalidChain)
    ));
}

fn outpoint(n: u8, vout: u32) -> OutPoint {
    OutPoint::new(Txid { bytes: [n; 32] }, vout)
}

fn swap(tag: u8, lock_time: u16) -> Swap {
    Swap {
        creation_time: 0,
        public: SwapPublicData {
            address: format!("address{}", tag),
            claim_pubkey: [2u8; 33],
            claim_script: vec![tag],
            hash: PaymentHash { bytes: [tag; 32] },
            lock_time,
            refund_pubkey: [3u8; 33],
            refund_script: vec![tag, tag],
        },
        private: SwapPrivateData { claim_privkey: [4u8; 32] },
    }
}

fn claimable(tag: u8, op: OutPoint, paid: bool) -> ClaimableUtxo {
    ClaimableUtxo {
        swap: swap(tag, 1000),
        utxo: Txo {
            block_hash: hash(9, 9),
            block_height: 100,
            outpoint: op,
            tx_out: TxOut { value_sat: 50_000, script_pubkey: vec![0x51] },
        },
        paid_with_request: if paid { Some(String::from("lnbc1")) } else { None },
        preimage: [tag; 32],
    }
}

fn claim(inputs: Vec<OutPoint>) -> Claim {
    Claim {
        creation_time: 0,
        tx: vec![],
        inputs,
        destination_address: String::from("bc1q"),
        fee_per_kw: 253,
        auto_bump: true,
    }
}

#[test]
fn claim_round_rechecks_current_claims_and_groups_the_rest_by_swap() {
    let claimables = vec![
        claimable(1, outpoint(1, 0), true),
        claimable(1, outpoint(1, 1), true),
        claimable(2, outpoint(2, 0), true),
        claimable(1, outpoint(1, 2), true),
        claimable(3, outpoint(3, 0), false),
    ];
    let claims = vec![
        claim(vec![outpoint(1, 1)]),
        // Spends an output that is no longer claimable: not current.
        claim(vec![outpoint(2, 0), outpoint(7, 7)]),
    ];
    let plan = plan_claims(&claimables, &claims);
    assert_eq!(plan.recheck.len(), 1);
    assert_eq!(plan.recheck[0].claim_index, 0);
    assert_eq!(plan.recheck[0].claimables, vec![1]);
    assert_eq!(plan.new_claims, vec![vec![0, 3], vec![2]]);
    for group in &plan.new_claims {
        for i in group {
            assert!(!plan.recheck[0].claimables.contains(i));
        }
    }
}

#[test]
fn replacement_needs_a_fee_rate_difference() {
    assert_eq!(MIN_REPLACEMENT_DIFF_SAT_PER_KW, 250);
    assert!(swapd::claim::monitor::keeps_claim_fee(1000, 1249));
    assert!(!swapd::claim::monitor::keeps_claim_fee(1000, 1250));
}

#[test]
fn payment_states_become_actions() {
    assert!(matches!(
        attempt_action(Ok(PaymentState::Success { preimage: [1u8; 32] })),
        Ok(AttemptAction::Record(PaymentResult::Success { preimage })) if preimage == [1u8; 32]
    ));
    match attempt_action(Ok(PaymentState::Failure { error: String::from("timeout") })) {
        Ok(AttemptAction::Record(PaymentResult::Failure { error })) => assert_eq!(error, "timeout"),
        other => panic!("unexpected {:?}", other),
    }
    assert!(matches!(
        attempt_action(Ok(PaymentState::Pending)),
        Ok(AttemptAction::KeepPending)
    ));
    match attempt_action(Err(LightningError::PaymentNotFound)) {
        Ok(AttemptAction::Record(PaymentResult::Failure { error })) => {
            assert_eq!(error, "cancelled")
        }
        other => panic!("unexpected {:?}", other),
    }
    assert!(matches!(
        attempt_action(Err(LightningError::ConnectionFailed)),
        Err(LightningError::ConnectionFailed)
    ));
}

#[test]
fn preimages_are_asked_only_for_unpaid_swaps() {
    let swaps = vec![
        SwapState { swap: swap(1, 10), preimage: None },
        SwapState { swap: swap(2, 10), preimage: Some([2u8; 32]) },
        SwapState { swap: swap(3, 10), preimage: None },
    ];
    let hashes = hashes_without_preimage(&swaps);
    assert_eq!(
        hashes,
        vec![PaymentHash { bytes: [1u8; 32] }, PaymentHash { bytes: [3u8; 32] }]
    );
}

#[test]
fn rebroadcast_of_a_known_claim_is_not_an_error() {
    assert!(rebroadcast_outcome(Ok(())).is_ok());
    assert!(rebroadcast_outcome(Err(BroadcastError::InsufficientFeeRejectingReplacement(
        String::from("insufficient fee, rejecting replacement")
    )))
    .is_ok());
    assert!(matches!(
        rebroadcast_outcome(Err(BroadcastError::UnknownError(String::from("x")))),
        Err(BroadcastError::UnknownError(m)) if m == "x"
    ));
    assert!(matches!(
        rebroadcast_outcome(Err(BroadcastError::Chain(ChainError::BlockNotFound))),
        Err(BroadcastError::Chain(ChainError::BlockNotFound))
    ));
}
