use std::str::FromStr;

use bitcoin::secp256k1::{PublicKey, Secp256k1, SecretKey};
use swapd::chain::decode::{block_data, block_data_from_hex, sender_address};
use swapd::chain::fee_estimator::FeeEstimateError;
use swapd::chain::types::{BlockHash, Network, OutPoint, TxOut, Txid, Txo};
use swapd::cln::{cln_pay_args, pay_answer_step, ClnPayAnswer, ClnPayStatus, ClnPayStep};
use swapd::internal_server::{
    claim_answer, claim_destination, claim_fee_rate, get_swap_answer, InternalServerError,
};
use swapd::lightning::{LightningError, PaymentRequest, PaymentResult};
use swapd::lnd::{send_payment_args, PaymentTracker};
use swapd::public_server::StatusCode;
use swapd::swap::swap_service::PaymentHash;

fn request() -> PaymentRequest {
    PaymentRequest {
        bolt11: "lnbcrt1invoice".to_string(),
        cltv_limit: 128,
        payment_hash: PaymentHash { bytes: [9; 32] },
        label: "payout-1".to_string(),
        fee_limit_msat: 51_000,
        timeout_seconds: 60,
    }
}

#[test]
fn lnd_payment_request_and_stream_end() {
    let args = send_payment_args(&request());
    assert_eq!(args.payment_request, "lnbcrt1invoice");
    assert_eq!(args.fee_limit_msat, 51_000);
    assert_eq!(args.timeout_seconds, 60);
    assert_eq!(args.cltv_limit, 128);
    match PaymentTracker::new().on_stream_end() {
        Err(LightningError::General(m)) => assert_eq!(m, "did not receive final update from payment"),
        other => panic!("unexpected {:?}", other),
    }
}

#[test]
fn cln_pay_request_and_rpc_error() {
    let args = cln_pay_args(&request());
    assert_eq!(args.label, "payout-1");
    assert_eq!(args.bolt11, "lnbcrt1invoice");
    assert_eq!(args.maxfee_msat, 51_000);
    assert_eq!(args.retry_for, 60);
    assert_eq!(args.maxdelay, 128);
    assert!(matches!(pay_answer_step(&Err("connection reset".to_string())), ClnPayStep::WaitForPayment));
    let complete = ClnPayAnswer { status: ClnPayStatus::Complete, preimage: vec![4; 32], partial_completion: false };
    match pay_answer_step(&Ok(complete)) {
        ClnPayStep::Done(Ok(PaymentResult::Success { preimage })) => assert_eq!(preimage, [4; 32]),
        other => panic!("unexpected {:?}", other),
    }
}

#[test]
fn internal_refusals_carry_status_and_message() {
    assert_eq!(InternalServerError::SwapNotFound.code(), StatusCode::NotFound);
    assert_eq!(InternalServerError::SwapNotFound.message(), "swap not found");
    assert_eq!(InternalServerError::MissingParameter.code(), StatusCode::InvalidArgument);
    assert_eq!(InternalServerError::MissingParameter.message(), "one of the parameters must be set");
    assert_eq!(InternalServerError::Internal("boom".to_string()).code(), StatusCode::Internal);
    assert_eq!(InternalServerError::InvalidOutpoint("x:y".to_string()).message(), "invalid outpoint x:y");
    let op = OutPoint::new(Txid { bytes: [0xab; 32] }, 7);
    let text = format!("{}:7", "ab".repeat(32));
    assert_eq!(InternalServerError::OutpointNotFound(op).message(), format!("outpoint {} not found", text));
    assert_eq!(InternalServerError::NoOutpointsSelected.message(), "no outpoints selected");
}

#[test]
fn swap_answer_lists_outputs_in_order() {
    let mut txid = [0u8; 32];
    txid[0] = 1;
    let utxos = vec![
        Txo {
            block_hash: BlockHash::from_bytes([2; 32]),
            block_height: 100,
            outpoint: OutPoint::new(Txid { bytes: txid }, 3),
            tx_out: TxOut { value_sat: 5, script_pubkey: vec![] },
        },
        Txo {
            block_hash: BlockHash::from_bytes([3; 32]),
            block_height: 101,
            outpoint: OutPoint::new(Txid { bytes: [0xff; 32] }, 0),
            tx_out: TxOut { value_sat: 6, script_pubkey: vec![] },
        },
    ];
    let answer = get_swap_answer(&"bcrt1qaddress".to_string(), &utxos);
    assert_eq!(answer.address, "bcrt1qaddress");
    assert_eq!(answer.outputs.len(), 2);
    let expected_txid = bitcoin::Txid::from_str(&answer.outputs[0].outpoint[..64]).unwrap();
    assert_eq!(bitcoin::hashes::Hash::to_byte_array(expected_txid), txid);
    assert_eq!(answer.outputs[0].outpoint, format!("{}:3", bitcoin::OutPoint::new(expected_txid, 3).txid));
    assert_eq!(answer.outputs[0].confirmation_height, 100);
    assert_eq!(
        answer.outputs[1].block_hash,
        <bitcoin::BlockHash as bitcoin::hashes::Hash>::from_byte_array([3; 32]).to_string()
    );
    assert_eq!(answer.outputs[1].outpoint, format!("{}:0", "ff".repeat(32)));
}

#[test]
fn claim_fee_destination_and_answer() {
    assert_eq!(claim_fee_rate(Some(2_000), Err(FeeEstimateError::Unavailable)).unwrap(), 2_000);
    assert_eq!(claim_fee_rate(None, Ok(1_500)).unwrap(), 1_500);
    assert!(matches!(claim_fee_rate(None, Err(FeeEstimateError::Unavailable)), Err(InternalServerError::Internal(_))));
    assert!(claim_destination(&None, Network::Regtest).unwrap().is_none());
    let mainnet = "bc1qw508d6qejxtdg4y5r3zarvary0c5xw7kv8f3t4".to_string();
    assert_eq!(claim_destination(&Some(mainnet.clone()), Network::Bitcoin).unwrap(), Some(mainnet.clone()));
    assert!(matches!(
        claim_destination(&Some(mainnet), Network::Regtest),
        Err(InternalServerError::InvalidNetworkForAddress)
    ));
    assert!(matches!(
        claim_destination(&Some("nope".to_string()), Network::Regtest),
        Err(InternalServerError::InvalidAddress)
    ));
    let tx = coinbase(5);
    let bytes = bitcoin::consensus::serialize(&tx);
    let answer = claim_answer(&bytes, 1_000).unwrap();
    assert_eq!(answer.tx_id, tx.compute_txid().to_string());
    assert_eq!(answer.fee_per_kw, 1_000);
    assert!(claim_answer(&vec![1, 2], 1_000).is_err());
}

fn coinbase(height: i64) -> bitcoin::Transaction {
    let script = bitcoin::script::Builder::new().push_int(height).push_int(0).into_script();
    bitcoin::Transaction {
        version: bitcoin::transaction::Version::ONE,
        lock_time: bitcoin::absolute::LockTime::ZERO,
        input: vec![bitcoin::TxIn {
            previous_output: bitcoin::OutPoint::null(),
            script_sig: script,
            ..Default::default()
        }],
        output: vec![bitcoin::TxOut {
            value: bitcoin::Amount::from_sat(50_000),
            script_pubkey: bitcoin::ScriptBuf::from_bytes(vec![0x51]),
        }],
    }
}

fn block(version: i32, txs: Vec<bitcoin::Transaction>) -> bitcoin::Block {
    bitcoin::Block {
        header: bitcoin::block::Header {
            version: bitcoin::block::Version::from_consensus(version),
            prev_blockhash: <bitcoin::BlockHash as bitcoin::hashes::Hash>::from_byte_array([7; 32]),
            merkle_root: <bitcoin::TxMerkleNode as bitcoin::hashes::Hash>::all_zeros(),
            time: 0,
            bits: bitcoin::CompactTarget::from_consensus(0x207fffff),
            nonce: 0,
        },
        txdata: txs,
    }
}

#[test]
fn block_is_read_at_its_coinbase_height() {
    let spend = bitcoin::Transaction {
        version: bitcoin::transaction::Version::TWO,
        lock_time: bitcoin::absolute::LockTime::ZERO,
        input: vec![bitcoin::TxIn {
            previous_output: bitcoin::OutPoint::new(coinbase(5).compute_txid(), 0),
            ..Default::default()
        }],
        output: vec![],
    };
    let b = block(0x2000_0000, vec![coinbase(812), spend.clone()]);
    let raw = bitcoin::consensus::serialize(&b);
    let data = block_data(&raw).unwrap();
    assert_eq!(data.height, 812);
    assert_eq!(data.hash.bytes, bitcoin::hashes::Hash::to_byte_array(b.block_hash()));
    assert_eq!(data.prev.bytes, [7; 32]);
    assert_eq!(data.txs.len(), 2);
    assert_eq!(data.txs[1].txid.bytes, bitcoin::hashes::Hash::to_byte_array(spend.compute_txid()));
    assert_eq!(data.txs[1].inputs[0].txid.bytes, bitcoin::hashes::Hash::to_byte_array(coinbase(5).compute_txid()));
    assert_eq!(data.txs[0].outputs[0].value_sat, 50_000);
    let hex_text = bitcoin::consensus::encode::serialize_hex(&b);
    assert_eq!(block_data_from_hex(&hex_text).unwrap().height, 812);
    assert!(block_data_from_hex(&"zz".to_string()).is_err());
    // A version 1 block carries no coinbase height.
    assert!(block_data(&bitcoin::consensus::serialize(&block(1, vec![coinbase(812)]))).is_err());
    assert!(block_data(&vec![0; 10]).is_err());
}

#[test]
fn sender_is_the_address_of_the_spent_output() {
    let secp = Secp256k1::new();
    let key = PublicKey::from_secret_key(&secp, &SecretKey::from_slice(&[3; 32]).unwrap());
    let address = bitcoin::Address::p2wpkh(&bitcoin::CompressedPublicKey(key), bitcoin::Network::Regtest);
    let mut prev = coinbase(5);
    prev.output.push(bitcoin::TxOut { value: bitcoin::Amount::from_sat(1), script_pubkey: address.script_pubkey() });
    let bytes = bitcoin::consensus::serialize(&prev);
    assert_eq!(sender_address(&bytes, 1, Network::Regtest).unwrap(), address.to_string());
    // Output 0 pays a script without an address; output 2 does not exist.
    assert!(sender_address(&bytes, 0, Network::Regtest).is_err());
    assert!(sender_address(&bytes, 2, Network::Regtest).is_err());
    assert!(sender_address(&vec![0], 0, Network::Regtest).is_err());
}
