use bitcoin::hashes::ripemd160;
use bitcoin::opcodes::all::{OP_CHECKSIG, OP_CHECKSIGVERIFY, OP_CSV, OP_EQUALVERIFY, OP_HASH160};
use bitcoin::script::Builder;
use bitcoin::secp256k1::{PublicKey, Secp256k1, SecretKey};

use std::sync::Arc;

use swapd::swap::privkey_provider::{PrivateKeyError, PrivateKeyProvider, RandomPrivateKeyProvider};
use swapd::swap::random_provider::{RandomError, RandomProvider, RingRandomProvider};
use swapd::public_server::{
    create_swap_request, persistence_refusal, swap_lookup_refusal, StatusCode, SwapServerError,
};
use swapd::swap::swap_repository::{GetSwapsError, SwapPersistenceError};
use swapd::chain::types::{BlockHash, OutPoint, TxOut, Txid, Txo};
use swapd::swap::swap_service::{
    claim_input_order, claim_lock_time, claim_tx_plan, ClaimableUtxo, Swap, SwapError, SwapPrivateData,
    SwapPublicData,
    claim_script, refund_script, script_num, swap_claim_script, PaymentHash,
};

fn pubkey(seed: u8) -> PublicKey {
    let secp = Secp256k1::new();
    PublicKey::from_secret_key(&secp, &SecretKey::from_slice(&[seed; 32]).unwrap())
}

#[test]
fn claim_script_matches_the_bitcoin_script_builder() {
    let claim_key = pubkey(1);
    let (x_only, _) = claim_key.x_only_public_key();
    let hash = [7u8; 32];
    let digest = bitcoin::hashes::Hash::to_byte_array(
        <ripemd160::Hash as bitcoin::hashes::Hash>::hash(&hash),
    );
    let expected = Builder::new()
        .push_opcode(OP_HASH160)
        .push_slice(&digest)
        .push_opcode(OP_EQUALVERIFY)
        .push_x_only_key(&x_only)
        .push_opcode(OP_CHECKSIG)
        .into_script();
    let script = swap_claim_script(&PaymentHash { bytes: hash }, &claim_key.serialize());
    assert_eq!(script, expected.to_bytes());
    assert_eq!(script.len(), 1 + 1 + 20 + 1 + 1 + 32 + 1);
    assert_eq!(claim_script(&digest, &claim_key.serialize()), script);
}

#[test]
fn refund_script_matches_the_bitcoin_script_builder() {
    let refund_key = pubkey(2);
    let (x_only, _) = refund_key.x_only_public_key();
    for lock_time in [0u16, 1, 16, 17, 127, 128, 144, 255, 256, 288, 1008, 32_767, 32_768, 65_535] {
        let expected = Builder::new()
            .push_x_only_key(&x_only)
            .push_opcode(OP_CHECKSIGVERIFY)
            .push_sequence(bitcoin::Sequence::from_height(lock_time))
            .push_opcode(OP_CSV)
            .into_script();
        assert_eq!(
            refund_script(&refund_key.serialize(), lock_time),
            expected.to_bytes(),
            "lock time {}",
            lock_time
        );
    }
}

#[test]
fn script_numbers_are_minimal() {
    assert_eq!(script_num(0), Vec::<u8>::new());
    assert_eq!(script_num(1), vec![1]);
    assert_eq!(script_num(0x7f), vec![0x7f]);
    assert_eq!(script_num(0x80), vec![0x80, 0x00]);
    assert_eq!(script_num(0x100), vec![0x00, 0x01]);
    assert_eq!(script_num(800_288), vec![0x20, 0x36, 0x0c]);
    assert_eq!(script_num(u32::MAX), vec![0xff, 0xff, 0xff, 0xff, 0x00]);
}

#[test]
fn new_swap_request_needs_a_curve_point_and_a_hash() {
    let key = pubkey(3);
    let (k, h) = create_swap_request(&key.serialize().to_vec(), &vec![5u8; 32]).unwrap();
    assert_eq!(k, key.serialize());
    assert_eq!(h, PaymentHash { bytes: [5u8; 32] });
    let (k, _) = create_swap_request(&key.serialize_uncompressed().to_vec(), &vec![5u8; 32]).unwrap();
    assert_eq!(k, key.serialize());
    assert!(matches!(
        create_swap_request(&vec![2u8; 33], &vec![5u8; 31]),
        Err(SwapServerError::InvalidRefundPubkey) | Err(SwapServerError::InvalidHash)
    ));
    assert!(matches!(
        create_swap_request(&vec![9u8; 33], &vec![5u8; 32]),
        Err(SwapServerError::InvalidRefundPubkey)
    ));
    assert!(matches!(
        create_swap_request(&vec![], &vec![5u8; 32]),
        Err(SwapServerError::InvalidRefundPubkey)
    ));
    assert!(matches!(
        create_swap_request(&key.serialize().to_vec(), &vec![5u8; 31]),
        Err(SwapServerError::InvalidHash)
    ));
}

#[test]
fn storage_errors_become_refusals() {
    let taken = persistence_refusal(&SwapPersistenceError::AlreadyExists);
    assert_eq!(taken, SwapServerError::HashAlreadyExists);
    assert_eq!(taken.code(), StatusCode::AlreadyExists);
    assert_eq!(taken.message(), "Hash already exists");
    assert_eq!(
        persistence_refusal(&SwapPersistenceError::General(String::from("io"))),
        SwapServerError::Internal
    );
    let missing = swap_lookup_refusal(&GetSwapsError::NotFound);
    assert_eq!(missing.code(), StatusCode::NotFound);
    assert_eq!(missing.message(), "swap not found");
    assert_eq!(swap_lookup_refusal(&GetSwapsError::InvalidPreimage), SwapServerError::Internal);
}

struct FixedRandom(Result<[u8; 32], String>);

impl RandomProvider for FixedRandom {
    fn rnd_32(&self) -> Result<[u8; 32], RandomError> {
        match &self.0 {
            Ok(bytes) => Ok(*bytes),
            Err(m) => Err(RandomError::General(m.clone())),
        }
    }
}

fn key_from(bytes: Result<[u8; 32], String>) -> Result<[u8; 32], PrivateKeyError> {
    RandomPrivateKeyProvider::new(Arc::new(FixedRandom(bytes))).new_private_key()
}

#[test]
fn private_keys_must_lie_below_the_group_order() {
    assert_eq!(key_from(Ok([1u8; 32])).unwrap(), [1u8; 32]);
    let order: [u8; 32] = [
        0xff, 0xff, 0xff, 0xff, 0xff, 0xff, 0xff, 0xff, 0xff, 0xff, 0xff, 0xff, 0xff, 0xff, 0xff,
        0xfe, 0xba, 0xae, 0xdc, 0xe6, 0xaf, 0x48, 0xa0, 0x3b, 0xbf, 0xd2, 0x5e, 0x8c, 0xd0, 0x36,
        0x41, 0x41,
    ];
    let mut below = order;
    below[31] = 0x40;
    assert_eq!(key_from(Ok(below)).unwrap(), below);
    for bad in [[0u8; 32], order, [0xffu8; 32]] {
        match key_from(Ok(bad)) {
            Err(PrivateKeyError::General(m)) => assert_eq!(m, "malformed or out-of-range secret key"),
            other => panic!("unexpected {:?}", other),
        }
    }
    match key_from(Err(String::from("unspecified error"))) {
        Err(PrivateKeyError::General(m)) => assert_eq!(m, "random error: general: unspecified error"),
        other => panic!("unexpected {:?}", other),
    }
}

#[test]
fn system_random_source_gives_keys() {
    let provider = RandomPrivateKeyProvider::new(Arc::new(RingRandomProvider::new()));
    let a = provider.new_private_key().unwrap();
    let b = provider.new_private_key().unwrap();
    assert_ne!(a, b);
    assert!(bitcoin::secp256k1::SecretKey::from_slice(&a).is_ok());
}

fn claimable(n: u8, vout: u32, value_sat: u64) -> ClaimableUtxo {
    ClaimableUtxo {
        swap: Swap {
            creation_time: 0,
            public: SwapPublicData {
                address: String::from("bc1p"),
                claim_pubkey: [2u8; 33],
                claim_script: vec![],
                hash: PaymentHash { bytes: [n; 32] },
                lock_time: 288,
                refund_pubkey: [3u8; 33],
                refund_script: vec![],
            },
            private: SwapPrivateData { claim_privkey: [1u8; 32] },
        },
        utxo: Txo {
            block_hash: BlockHash::from_bytes([0u8; 32]),
            block_height: 800_000,
            outpoint: OutPoint::new(Txid { bytes: [n; 32] }, vout),
            tx_out: TxOut { value_sat, script_pubkey: vec![] },
        },
        paid_with_request: None,
        preimage: [0u8; 32],
    }
}

fn bitcoin_weight(n_inputs: usize, destination: &[u8]) -> u64 {
    let input = bitcoin::TxIn {
        previous_output: bitcoin::OutPoint::null(),
        script_sig: bitcoin::ScriptBuf::new(),
        sequence: bitcoin::Sequence::ZERO,
        witness: bitcoin::Witness::new(),
    };
    bitcoin::Transaction {
        version: bitcoin::transaction::Version::TWO,
        lock_time: bitcoin::absolute::LockTime::ZERO,
        input: vec![input; n_inputs],
        output: vec![bitcoin::TxOut {
            value: bitcoin::Amount::from_sat(1),
            script_pubkey: bitcoin::ScriptBuf::from_bytes(destination.to_vec()),
        }],
    }
    .weight()
    .to_wu()
}

#[test]
fn claim_plan_sorts_inputs_and_pays_all_but_the_fee() {
    let destination = vec![0u8; 22];
    let claimables = vec![claimable(2, 0, 30_000), claimable(1, 5, 20_000)];
    let plan = claim_tx_plan(&claimables, &destination, 1000, 800_100, 546).unwrap();
    assert_eq!(plan.input_order, vec![1, 0]);
    assert_eq!(plan.lock_time, 800_100);
    // 4 * 123 bytes, plus two claim witnesses of 209 bytes.
    assert_eq!(bitcoin_weight(2, &destination), 492);
    assert_eq!(plan.output_value_sat, 50_000 - (492 + 2 * 209));
    assert!(matches!(
        claim_tx_plan(&claimables, &destination, 1000, 500_000_000, 546),
        Err(SwapError::InvalidBlockHeight(500_000_000))
    ));
    assert!(matches!(
        claim_tx_plan(&claimables, &destination, 60_000, 800_100, 546),
        Err(SwapError::AmountTooLow)
    ));
    assert_eq!(claim_lock_time(u64::from(u32::MAX) + 5).unwrap(), 4);
}

#[test]
fn unsigned_weight_follows_the_bitcoin_crate() {
    for n in [0usize, 1, 2, 252, 253, 300] {
        for len in [0usize, 22, 34, 252, 253] {
            let destination = vec![0u8; len];
            let claimables: Vec<ClaimableUtxo> =
                (0..n).map(|i| claimable((i % 250) as u8, i as u32, 1_000_000)).collect();
            let plan = claim_tx_plan(&claimables, &destination, 1, 800_000, 0).unwrap();
            let total = 1_000_000 * n as u64;
            let weight = bitcoin_weight(n, &destination) + 209 * n as u64;
            assert_eq!(plan.output_value_sat, total.saturating_sub((weight + 999) / 1000), "n {} len {}", n, len);
        }
    }
}

#[test]
fn claim_input_order_ignores_the_listing() {
    let a = vec![claimable(3, 0, 1), claimable(1, 2, 1), claimable(1, 1, 1), claimable(2, 9, 1)];
    let b = vec![claimable(1, 1, 1), claimable(2, 9, 1), claimable(3, 0, 1), claimable(1, 2, 1)];
    let outpoints = |cl: &Vec<ClaimableUtxo>| -> Vec<OutPoint> {
        claim_input_order(cl).iter().map(|i| cl[*i].utxo.outpoint).collect()
    };
    assert_eq!(outpoints(&a), outpoints(&b));
    assert_eq!(outpoints(&a)[0], OutPoint::new(Txid { bytes: [1u8; 32] }, 1));
}
