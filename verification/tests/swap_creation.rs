use std::sync::Arc;

use bitcoin::secp256k1::{PublicKey, Secp256k1, SecretKey};

use swapd::chain::types::Network;
use swapd::swap::privkey_provider::{PrivateKeyError, RandomPrivateKeyProvider};
use swapd::swap::random_provider::{RandomError, RandomProvider};
use swapd::swap::swap_service::{
    refund_script, swap_claim_script, swap_with_claim_key, PaymentHash, SwapError, SwapService,
};
use swapd::swap::taproot::swap_address;

struct FixedRandom(Result<[u8; 32], String>);

impl RandomProvider for FixedRandom {
    fn rnd_32(&self) -> Result<[u8; 32], RandomError> {
        match &self.0 {
            Ok(bytes) => Ok(*bytes),
            Err(m) => Err(RandomError::General(m.clone())),
        }
    }
}

fn pubkey(seed: u8) -> [u8; 33] {
    let secp = Secp256k1::new();
    PublicKey::from_secret_key(&secp, &SecretKey::from_slice(&[seed; 32]).unwrap()).serialize()
}

fn service(bytes: Result<[u8; 32], String>) -> SwapService<RandomPrivateKeyProvider<FixedRandom>> {
    SwapService::new(
        Network::Regtest,
        RandomPrivateKeyProvider::new(Arc::new(FixedRandom(bytes))),
        288,
        546,
    )
}

/// The address the outside crates give for a swap's keys and scripts.
fn expected_address(claim: &[u8; 33], refund: &[u8; 33], claim_script: &[u8], refund_script: &[u8]) -> String {
    let claim = secp256k1::PublicKey::from_slice(claim).unwrap();
    let refund = secp256k1::PublicKey::from_slice(refund).unwrap();
    let internal = secp256k1::musig::KeyAggCache::new(&[&claim, &refund]).agg_pk().serialize();
    let internal = bitcoin::key::XOnlyPublicKey::from_slice(&internal).unwrap();
    let info = bitcoin::taproot::TaprootBuilder::new()
        .add_leaf(1, bitcoin::ScriptBuf::from_bytes(claim_script.to_vec()))
        .unwrap()
        .add_leaf(1, bitcoin::ScriptBuf::from_bytes(refund_script.to_vec()))
        .unwrap()
        .finalize(&Secp256k1::verification_only(), internal)
        .unwrap();
    bitcoin::Address::p2tr_tweaked(info.output_key(), bitcoin::Network::Regtest).to_string()
}

#[test]
fn new_swap_commits_to_both_paths_in_a_taproot_address() {
    let refund = pubkey(2);
    let hash = PaymentHash { bytes: [9; 32] };
    let swap = service(Ok([3; 32])).create_swap(refund, hash, 1000, 1_700_000_000).unwrap();
    let claim = pubkey(3);
    assert_eq!(swap.private.claim_privkey, [3; 32]);
    assert_eq!(swap.public.claim_pubkey, claim);
    assert_eq!(swap.public.lock_time, 288);
    assert_eq!(swap.creation_time, 1_700_000_000);
    assert_eq!(swap.public.claim_script, swap_claim_script(&hash, &claim));
    assert_eq!(swap.public.refund_script, refund_script(&refund, 288));
    assert!(swap.public.address.starts_with("bcrt1p"));
    assert_eq!(
        swap.public.address,
        expected_address(&claim, &refund, &swap.public.claim_script, &swap.public.refund_script)
    );
    // The key order counts: the refund key first gives another address.
    let swapped = swap_address(
        &refund,
        &claim,
        &swap.public.claim_script,
        &swap.public.refund_script,
        Network::Regtest,
    )
    .unwrap();
    assert_ne!(swapped, swap.public.address);
}

#[test]
fn new_swap_refusals() {
    let refund = pubkey(2);
    let hash = PaymentHash { bytes: [9; 32] };
    // A relative lock in blocks holds 16 bits.
    let long_lock = SwapService::new(
        Network::Regtest,
        RandomPrivateKeyProvider::new(Arc::new(FixedRandom(Ok([3; 32])))),
        70_000,
        546,
    );
    match long_lock.create_swap(refund, hash, 1000, 0) {
        Err(SwapError::InvalidLockTime(l)) => assert_eq!(l, 70_000),
        other => panic!("unexpected {:?}", other.map(|s| s.public.address)),
    }
    // The height at which a swap is made does not enter its lock.
    let early = service(Ok([3; 32])).create_swap(refund, hash, 1000, 0).unwrap();
    let late = service(Ok([3; 32])).create_swap(refund, hash, 499_999_800, 0).unwrap();
    assert_eq!(early.public.refund_script, late.public.refund_script);
    assert_eq!(early.public.address, late.public.address);
    match service(Err("no entropy".to_string())).create_swap(refund, hash, 1000, 0) {
        Err(SwapError::PrivateKey(PrivateKeyError::General(m))) => {
            assert_eq!(m, "random error: general: no entropy")
        },
        other => panic!("unexpected {:?}", other.map(|s| s.public.address)),
    }
    // A refund key that is no curve point gives no address.
    match swap_with_claim_key(Ok([3; 32]), [0; 33], hash, 288, 0, Network::Regtest) {
        Err(SwapError::Taproot(_)) => {},
        other => panic!("unexpected {:?}", other.map(|s| s.public.address)),
    }
}

use std::str::FromStr;
use swapd::chain::types::{BlockHash, OutPoint, TxOut, Txid, Txo};
use swapd::swap::swap_service::{claim_tx_plan, ClaimableUtxo, Swap};

fn claimable(swap: &Swap, txid: u8, vout: u32, value_sat: u64) -> ClaimableUtxo {
    let address = bitcoin::Address::from_str(&swap.public.address).unwrap().assume_checked();
    ClaimableUtxo {
        swap: swap.clone(),
        utxo: Txo {
            block_hash: BlockHash::from_bytes([1; 32]),
            block_height: 1001,
            outpoint: OutPoint::new(Txid { bytes: [txid; 32] }, vout),
            tx_out: TxOut { value_sat, script_pubkey: address.script_pubkey().to_bytes() },
        },
        paid_with_request: None,
        preimage: [8; 32],
    }
}

#[test]
fn claim_transaction_is_signed_through_the_claim_script() {
    let service = service(Ok([3; 32]));
    let hash = PaymentHash { bytes: [9; 32] };
    let swap = service.create_swap(pubkey(2), hash, 1000, 0).unwrap();
    let claimables = vec![claimable(&swap, 5, 1, 50_000), claimable(&swap, 4, 0, 30_000)];
    let destination = vec![0x00, 0x14, 7, 7, 7, 7, 7, 7, 7, 7, 7, 7, 7, 7, 7, 7, 7, 7, 7, 7, 7, 7];
    let bytes = service.create_claim_tx(&claimables, 1000, 1100, &destination).unwrap();
    let plan = claim_tx_plan(&claimables, &destination, 1000, 1100, 546).unwrap();
    let tx: bitcoin::Transaction = bitcoin::consensus::deserialize(&bytes).unwrap();
    assert_eq!(tx.version, bitcoin::transaction::Version::TWO);
    assert_eq!(tx.lock_time.to_consensus_u32(), 1100);
    assert_eq!(tx.output.len(), 1);
    assert_eq!(tx.output[0].value.to_sat(), plan.output_value_sat);
    assert!(plan.output_value_sat < 80_000);
    assert_eq!(tx.output[0].script_pubkey.to_bytes(), destination);
    // Inputs come sorted by outpoint.
    assert_eq!(bitcoin::hashes::Hash::to_byte_array(tx.input[0].previous_output.txid), [4; 32]);
    assert_eq!(bitcoin::hashes::Hash::to_byte_array(tx.input[1].previous_output.txid), [5; 32]);

    let secp = Secp256k1::verification_only();
    let claim_key = bitcoin::key::XOnlyPublicKey::from_slice(&swap.public.claim_pubkey[1..]).unwrap();
    let address = bitcoin::Address::from_str(&swap.public.address).unwrap().assume_checked();
    let program = address.witness_program().unwrap();
    let output_key = bitcoin::key::XOnlyPublicKey::from_slice(program.program().as_bytes()).unwrap();
    let prevouts: Vec<bitcoin::TxOut> = [&claimables[1], &claimables[0]]
        .iter()
        .map(|c| bitcoin::TxOut {
            value: bitcoin::Amount::from_sat(c.utxo.tx_out.value_sat),
            script_pubkey: bitcoin::ScriptBuf::from_bytes(c.utxo.tx_out.script_pubkey.clone()),
        })
        .collect();
    let script = bitcoin::ScriptBuf::from_bytes(swap.public.claim_script.clone());
    let leaf = bitcoin::taproot::TapLeafHash::from_script(&script, bitcoin::taproot::LeafVersion::TapScript);
    for n in 0..2 {
        let witness: Vec<Vec<u8>> = tx.input[n].witness.iter().map(|w| w.to_vec()).collect();
        assert_eq!(witness.len(), 4);
        let sighash = bitcoin::sighash::SighashCache::new(&tx)
            .taproot_script_spend_signature_hash(
                n,
                &bitcoin::sighash::Prevouts::All(&prevouts),
                leaf,
                bitcoin::TapSighashType::Default,
            )
            .unwrap();
        let message = bitcoin::secp256k1::Message::from_digest(bitcoin::hashes::Hash::to_byte_array(sighash));
        let signature = bitcoin::secp256k1::schnorr::Signature::from_slice(&witness[0]).unwrap();
        assert!(secp.verify_schnorr(&signature, &message, &claim_key).is_ok());
        assert_eq!(witness[1], vec![8; 32]);
        assert_eq!(witness[2], swap.public.claim_script);
        let control = bitcoin::taproot::ControlBlock::decode(&witness[3]).unwrap();
        assert!(control.verify_taproot_commitment(&secp, output_key, &script));
    }
}

#[test]
fn claim_transaction_refusals() {
    let service = service(Ok([3; 32]));
    let hash = PaymentHash { bytes: [9; 32] };
    let swap = service.create_swap(pubkey(2), hash, 1000, 0).unwrap();
    let destination = vec![0x51];
    let claimables = vec![claimable(&swap, 5, 1, 50_000)];
    assert!(matches!(
        service.create_claim_tx(&claimables, 1000, 500_000_000, &destination),
        Err(SwapError::InvalidBlockHeight(500_000_000))
    ));
    assert!(matches!(
        service.create_claim_tx(&vec![claimable(&swap, 5, 1, 600)], 1000, 1100, &destination),
        Err(SwapError::AmountTooLow)
    ));
    let mut broken = claimable(&swap, 5, 1, 50_000);
    broken.swap.private.claim_privkey = [0; 32];
    assert!(matches!(
        service.create_claim_tx(&vec![broken], 1000, 1100, &destination),
        Err(SwapError::Sign(_))
    ));
    let failing = self::service(Err("no entropy".to_string()));
    assert!(matches!(
        failing.create_claim_tx(&claimables, 1000, 1100, &destination),
        Err(SwapError::PrivateKey(_))
    ));
}

use swapd::public_server::{refund_request, SwapServerError};

/// A refund transaction that spends one output of the swap.
fn refund_tx(swap_outpoint: bitcoin::OutPoint) -> Vec<u8> {
    let tx = bitcoin::Transaction {
        version: bitcoin::transaction::Version::TWO,
        lock_time: bitcoin::absolute::LockTime::ZERO,
        input: vec![bitcoin::TxIn { previous_output: swap_outpoint, ..Default::default() }],
        output: vec![bitcoin::TxOut {
            value: bitcoin::Amount::from_sat(49_000),
            script_pubkey: bitcoin::ScriptBuf::from_bytes(vec![0x51]),
        }],
    };
    bitcoin::consensus::serialize(&tx)
}

#[test]
fn refund_partial_signature_completes_a_key_spend() {
    let service = service(Ok([3; 32]));
    let refund_sk = secp256k1::SecretKey::from_byte_array([2; 32]).unwrap();
    let refund_pk = secp256k1::PublicKey::from_secret_key(&refund_sk);
    let swap = service
        .create_swap(refund_pk.serialize(), PaymentHash { bytes: [9; 32] }, 1000, 0)
        .unwrap();
    let address = bitcoin::Address::from_str(&swap.public.address).unwrap().assume_checked();
    let swap_output = TxOut { value_sat: 50_000, script_pubkey: address.script_pubkey().to_bytes() };
    let outpoint = bitcoin::OutPoint::new(bitcoin::hashes::Hash::from_byte_array([4; 32]), 1);
    let tx = refund_tx(outpoint);

    // The user's side of the signing session.
    let claim_pk = secp256k1::PublicKey::from_slice(&swap.public.claim_pubkey).unwrap();
    let mut cache = secp256k1::musig::KeyAggCache::new(&[&claim_pk, &refund_pk]);
    let internal = bitcoin::key::XOnlyPublicKey::from_slice(&cache.agg_pk().serialize()).unwrap();
    let info = bitcoin::taproot::TaprootBuilder::new()
        .add_leaf(1, bitcoin::ScriptBuf::from_bytes(swap.public.claim_script.clone()))
        .unwrap()
        .add_leaf(1, bitcoin::ScriptBuf::from_bytes(swap.public.refund_script.clone()))
        .unwrap()
        .finalize(&Secp256k1::verification_only(), internal)
        .unwrap();
    let tweak = bitcoin::hashes::Hash::to_byte_array(info.tap_tweak());
    cache.pubkey_xonly_tweak_add(&secp256k1::Scalar::from_be_bytes(tweak).unwrap()).unwrap();
    let decoded: bitcoin::Transaction = bitcoin::consensus::deserialize(&tx).unwrap();
    let prevout = bitcoin::TxOut {
        value: bitcoin::Amount::from_sat(50_000),
        script_pubkey: address.script_pubkey(),
    };
    let sighash = bitcoin::sighash::SighashCache::new(&decoded)
        .taproot_key_spend_signature_hash(
            0,
            &bitcoin::sighash::Prevouts::All(&[prevout]),
            bitcoin::TapSighashType::Default,
        )
        .unwrap();
    let msg = bitcoin::hashes::Hash::to_byte_array(sighash);
    let (user_secret, user_nonce) = cache.nonce_gen_with_uniform_randomness(
        secp256k1::musig::SessionSecretRand::assume_uniformly_random([5; 32]),
        refund_pk,
        &msg,
        [6; 32],
    );

    let request = refund_request(&tx, &user_nonce.serialize().to_vec(), 0).unwrap();
    assert_eq!(request.input_index, 0);
    assert_eq!(bitcoin::hashes::Hash::to_byte_array(outpoint.txid), request.previous_outputs[0].txid.bytes);
    let (server_sig, server_nonce) = service
        .partial_sign_refund_tx(&swap, &tx, &vec![swap_output], 0, &request.their_pub_nonce)
        .unwrap();

    let server_sig = secp256k1::musig::PartialSignature::from_byte_array(&server_sig).unwrap();
    let server_nonce = secp256k1::musig::PublicNonce::from_byte_array(&server_nonce).unwrap();
    let agg_nonce = secp256k1::musig::AggregatedNonce::new(&[&server_nonce, &user_nonce]);
    let session = secp256k1::musig::Session::new(&cache, agg_nonce, &msg);
    assert!(session.partial_verify(&cache, &server_sig, &server_nonce, claim_pk));
    let user_sig =
        session.partial_sign(user_secret, &secp256k1::Keypair::from_secret_key(&refund_sk), &cache);
    let signature = session.partial_sig_agg(&[&server_sig, &user_sig]);
    let output_key = secp256k1::XOnlyPublicKey::from_byte_array(
        info.output_key().to_inner().serialize(),
    )
    .unwrap();
    assert!(signature.verify(&output_key, &msg).is_ok());
}

#[test]
fn refund_request_refusals() {
    let tx = refund_tx(bitcoin::OutPoint::null());
    let nonce = vec![2u8; 66];
    assert!(matches!(refund_request(&vec![1, 2, 3], &nonce, 0), Err(SwapServerError::InvalidTransaction)));
    assert!(matches!(refund_request(&tx, &vec![0; 66], 0), Err(SwapServerError::InvalidPubNonce)));
    assert!(matches!(refund_request(&tx, &vec![2; 65], 0), Err(SwapServerError::InvalidPubNonce)));
    assert_eq!(SwapServerError::InvalidPubNonce.message(), "invalid pub_nonce");
    // A valid nonce: two compressed points.
    let key = pubkey(7);
    let mut valid = key.to_vec();
    valid.extend_from_slice(&key);
    assert!(matches!(refund_request(&tx, &valid, 1), Err(SwapServerError::InvalidInputIndex)));
    assert_eq!(refund_request(&tx, &valid, 0).unwrap().their_pub_nonce.to_vec(), valid);
}

use swapd::public_server::{RefundFlow, RefundStage};
use swapd::swap::swap_repository::{GetSwapsError, LockSwapError};
use swapd::swap::swap_service::SwapState;

/// A swap of the refund key with seed 2, a refund transaction spending
/// output 1 of transaction [4; 32], that output, and the user's nonce.
fn refund_setup() -> (Swap, Vec<u8>, TxOut, Vec<u8>) {
    let refund_pk = secp256k1::PublicKey::from_secret_key(&secp256k1::SecretKey::from_byte_array([2; 32]).unwrap());
    let swap = service(Ok([3; 32]))
        .create_swap(refund_pk.serialize(), PaymentHash { bytes: [9; 32] }, 1000, 0)
        .unwrap();
    let address = bitcoin::Address::from_str(&swap.public.address).unwrap().assume_checked();
    let output = TxOut { value_sat: 50_000, script_pubkey: address.script_pubkey().to_bytes() };
    let tx = refund_tx(bitcoin::OutPoint::new(bitcoin::hashes::Hash::from_byte_array([4; 32]), 1));
    let key = pubkey(7);
    let mut nonce = key.to_vec();
    nonce.extend_from_slice(&key);
    (swap, tx, output, nonce)
}

fn other_output() -> TxOut {
    TxOut { value_sat: 1, script_pubkey: vec![0x51] }
}

#[test]
fn refund_flow_signs_after_every_check() {
    let (swap, tx, output, nonce) = refund_setup();
    let service = service(Ok([3; 32]));
    let mut flow = RefundFlow::start(tx.clone(), &nonce, 0, &swap.public.address, Network::Regtest).unwrap();
    assert_eq!(flow.stage, RefundStage::Swap);
    flow.on_swap(Ok(SwapState { swap: swap.clone(), preimage: None })).unwrap();
    flow.on_prevouts(vec![Ok(vec![other_output(), output.clone()])]).unwrap();
    flow.on_sign(&service).unwrap();
    let id = flow.draw_refund_id(&FixedRandom(Ok([0xab; 32]))).unwrap();
    assert_eq!(id, "ab".repeat(32));
    flow.on_locked(Ok(())).unwrap();
    let answer = flow.on_payment_check(Ok(false));
    // Without a payment the refund lock is kept.
    assert!(!answer.unlock);
    let (sig, our_nonce) = answer.answer.unwrap();
    assert_eq!(flow.stage, RefundStage::Done);
    // The same signing round as the service's own, with the same randomness.
    let mut nonce_array = [0u8; 66];
    nonce_array.copy_from_slice(&nonce);
    let direct = service.partial_sign_refund_tx(&swap, &tx, &vec![output], 0, &nonce_array).unwrap();
    assert_eq!((sig, our_nonce), direct);
}

#[test]
fn refund_flow_refusals() {
    let (swap, tx, output, nonce) = refund_setup();
    let service = service(Ok([3; 32]));
    assert!(matches!(
        RefundFlow::start(tx.clone(), &nonce, 0, &"not an address".to_string(), Network::Regtest),
        Err(SwapServerError::InvalidAddress)
    ));
    assert!(matches!(
        RefundFlow::start(tx.clone(), &nonce, 0, &swap.public.address, Network::Bitcoin),
        Err(SwapServerError::InvalidAddress)
    ));
    let mut flow = RefundFlow::start(tx.clone(), &nonce, 0, &swap.public.address, Network::Regtest).unwrap();
    assert!(matches!(flow.on_swap(Err(GetSwapsError::NotFound)), Err(SwapServerError::SwapNotFound)));
    assert!(matches!(
        flow.on_swap(Err(GetSwapsError::General("db".to_string()))),
        Err(SwapServerError::Internal)
    ));
    flow.on_swap(Ok(SwapState { swap: swap.clone(), preimage: None })).unwrap();
    assert!(matches!(flow.on_prevouts(vec![Err(())]), Err(SwapServerError::InvalidTransactionInput)));
    assert!(matches!(
        flow.on_prevouts(vec![Ok(vec![other_output()])]),
        Err(SwapServerError::InvalidTransactionInput)
    ));
    // The spent output must pay the swap address.
    assert!(matches!(
        flow.on_prevouts(vec![Ok(vec![output.clone(), other_output()])]),
        Err(SwapServerError::InvalidTransactionInput)
    ));
    assert_eq!(flow.stage, RefundStage::Prevouts);
    flow.on_prevouts(vec![Ok(vec![other_output(), output])]).unwrap();
    flow.on_sign(&service).unwrap();
    assert!(matches!(flow.on_locked(Err(LockSwapError::AlreadyLocked)), Err(SwapServerError::SwapLocked)));
    assert!(matches!(flow.on_locked(Err(LockSwapError::SwapNotFound)), Err(SwapServerError::Internal)));
    assert!(matches!(
        flow.draw_refund_id(&FixedRandom(Err("no entropy".to_string()))),
        Err(SwapServerError::Internal)
    ));
    flow.on_locked(Ok(())).unwrap();
    // A payment, or a failed check, releases the refund lock.
    let answer = flow.on_payment_check(Ok(true));
    assert!(answer.unlock);
    assert!(matches!(answer.answer, Err(SwapServerError::SwapLocked)));
    let answer = flow.on_payment_check(Err(()));
    assert!(answer.unlock);
    assert!(matches!(answer.answer, Err(SwapServerError::Internal)));
    assert_eq!(flow.stage, RefundStage::PaymentCheck);
}

#[test]
fn claim_transaction_ignores_the_listing_order() {
    let service = service(Ok([3; 32]));
    let swap = service.create_swap(pubkey(2), PaymentHash { bytes: [9; 32] }, 1000, 0).unwrap();
    let a = || claimable(&swap, 5, 1, 50_000);
    let b = || claimable(&swap, 4, 0, 30_000);
    let c = || claimable(&swap, 4, 2, 20_000);
    let destination = vec![0x51];
    let one = service.create_claim_tx(&vec![a(), b(), c()], 1000, 1100, &destination);
    let other = service.create_claim_tx(&vec![c(), a(), b()], 1000, 1100, &destination);
    assert_eq!(one.unwrap(), other.unwrap());
}

use swapd::postgresql::{swap_state_from_columns, SwapColumns};
use swapd::swap::swap_repository::GetSwapsError as RowError;

fn columns_of(swap: &Swap) -> SwapColumns {
    SwapColumns {
        address: swap.public.address.clone(),
        claim_privkey: swap.private.claim_privkey.to_vec(),
        claim_pubkey: swap.public.claim_pubkey.to_vec(),
        claim_script: swap.public.claim_script.clone(),
        creation_time: swap.creation_time as i64,
        lock_time: swap.public.lock_time as i32,
        payment_hash: swap.public.hash.bytes.to_vec(),
        preimage: None,
        refund_pubkey: swap.public.refund_pubkey.to_vec(),
        refund_script: swap.public.refund_script.clone(),
    }
}

#[test]
fn stored_swap_reads_back() {
    let swap = service(Ok([3; 32])).create_swap(pubkey(2), PaymentHash { bytes: [9; 32] }, 1000, 1_700_000_000).unwrap();
    let state = swap_state_from_columns(columns_of(&swap), Network::Regtest).unwrap();
    assert_eq!(state.swap.public.address, swap.public.address);
    assert_eq!(state.swap.public.claim_pubkey, swap.public.claim_pubkey);
    assert_eq!(state.swap.public.refund_pubkey, swap.public.refund_pubkey);
    assert_eq!(state.swap.public.claim_script, swap.public.claim_script);
    assert_eq!(state.swap.public.refund_script, swap.public.refund_script);
    assert_eq!(state.swap.public.lock_time, 288);
    assert_eq!(state.swap.public.hash, swap.public.hash);
    assert_eq!(state.swap.private.claim_privkey, [3; 32]);
    assert_eq!(state.swap.creation_time, 1_700_000_000);
    assert!(state.preimage.is_none());
    let mut with_preimage = columns_of(&swap);
    with_preimage.preimage = Some(vec![1; 32]);
    assert_eq!(swap_state_from_columns(with_preimage, Network::Regtest).unwrap().preimage, Some([1; 32]));
}

#[test]
fn broken_rows_are_refused() {
    let swap = service(Ok([3; 32])).create_swap(pubkey(2), PaymentHash { bytes: [9; 32] }, 1000, 0).unwrap();
    let general = |c: SwapColumns| matches!(swap_state_from_columns(c, Network::Regtest), Err(RowError::General(_)));
    let mut c = columns_of(&swap);
    c.creation_time = -1;
    assert!(general(c));
    assert!(matches!(
        swap_state_from_columns(columns_of(&swap), Network::Bitcoin),
        Err(RowError::General(_))
    ));
    let mut c = columns_of(&swap);
    c.claim_pubkey = vec![0; 33];
    assert!(general(c));
    let mut c = columns_of(&swap);
    c.payment_hash = vec![9; 31];
    assert!(general(c));
    let mut c = columns_of(&swap);
    c.refund_pubkey = vec![2; 32];
    assert!(general(c));
    let mut c = columns_of(&swap);
    c.claim_privkey = vec![0; 32];
    assert!(general(c));
    let mut c = columns_of(&swap);
    c.preimage = Some(vec![1; 31]);
    assert!(matches!(swap_state_from_columns(c, Network::Regtest), Err(RowError::InvalidPreimage)));
}

#[test]
fn refund_refused_for_a_claim_key_of_another_swap() {
    let (mut swap, tx, output, nonce) = refund_setup();
    swap.public.claim_pubkey = pubkey(8);
    let mut nonce_array = [0u8; 66];
    nonce_array.copy_from_slice(&nonce);
    assert!(matches!(
        service(Ok([3; 32])).partial_sign_refund_tx(&swap, &tx, &vec![output], 0, &nonce_array),
        Err(SwapError::Sign(_))
    ));
}
