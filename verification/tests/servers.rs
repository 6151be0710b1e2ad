use swapd::chain::filter::filter_txos;
use swapd::bitcoind::{broadcast_error_of, contains};
use swapd::chain::client::BroadcastError;
use swapd::chain::monitor::{
    block_contents, block_contents_from, script_addresses_of, watched_utxos, BlockData, BlockTx,
};
use swapd::chain::types::{BlockHash, Network, OutPoint, TxOut, Txid, Txo};
use swapd::internal_server::{
    address_query, addresses_to_filter, find_claimable, select_claimables, AddressError, selected_min_blocks_left, swap_lookup_error,
    swap_query, InternalServerError, SwapQuery,
};
use swapd::lightning::PaymentResult;
use swapd::public_server::{
    check_amount_limits, check_amount_matches, check_input_index, check_not_paid,
    check_refund_prevout, fee_limit_msat, invoice_amount_sat, invoice_cltv_delta, lock_refusal,
    checked_refund_address, min_allowed_deposit, pay_outcome, prevout_pays_address, refund_address,
    swap_request_keys, payable_txos, payout_cltv_limit, refund_payment_check,
    spent_output, swap_parameters, utxos_in_confirmation_window, StatusCode, SwapServerError,
};
use swapd::swap::swap_repository::{GetSwapsError, LockSwapError};
use swapd::swap::swap_service::{
    claim_input_order, claim_output_value, swap_lock_time, total_value, ClaimableUtxo, PaymentHash, Swap,
    SwapError, SwapPrivateData, SwapPublicData,
};

const MAINNET_P2WPKH: &str = "bc1qw508d6qejxtdg4y5r3zarvary0c5xw7kv8f3t4";
const TESTNET_P2WPKH: &str = "tb1qw508d6qejxtdg4y5r3zarvary0c5xw7kxpjzsx";

fn p2wpkh_script() -> Vec<u8> {
    let mut script = vec![0x00, 0x14];
    script.extend_from_slice(&[
        0x75, 0x1e, 0x76, 0xe8, 0x19, 0x91, 0x96, 0xd4, 0x54, 0x94, 0x1c, 0x45, 0xd1, 0xb3,
        0xa3, 0x23, 0xf1, 0x43, 0x3b, 0xd6,
    ]);
    script
}

#[test]
fn swap_parameters_follow_the_fee_rate() {
    let p = swap_parameters(1000, 4_000_000);
    assert_eq!(p.max_swap_amount_sat, 4_000_000);
    assert_eq!(p.min_swap_amount_sat, 1500);
    assert_eq!(p.min_utxo_amount_sat, 1500);
    assert_eq!(swap_parameters(253, 1).min_swap_amount_sat, 379);
    assert_eq!(min_allowed_deposit(1000), 1500);
}

#[test]
fn invoice_amount_checks() {
    assert!(matches!(invoice_amount_sat(None), Err(SwapServerError::MissingAmount)));
    assert!(matches!(
        invoice_amount_sat(Some(1_500)),
        Err(SwapServerError::AmountNotRoundSat)
    ));
    assert_eq!(invoice_amount_sat(Some(21_000)).unwrap(), 21);
    let p = swap_parameters(1000, 100_000);
    assert!(matches!(
        check_amount_limits(100_001, &p),
        Err(SwapServerError::AmountAboveMax)
    ));
    assert!(matches!(
        check_amount_limits(1_499, &p),
        Err(SwapServerError::AmountBelowMin)
    ));
    assert!(check_amount_limits(1_500, &p).is_ok());
    assert!(check_amount_limits(100_000, &p).is_ok());
    assert!(matches!(check_not_paid(Some([0u8; 32])), Err(SwapServerError::AlreadyPaid)));
    assert!(check_not_paid(None).is_ok());
    assert_eq!(invoice_cltv_delta(144).unwrap(), 144);
    assert!(matches!(
        invoice_cltv_delta(u32::MAX as u64 + 1),
        Err(SwapServerError::CltvDeltaTooHigh)
    ));
}

#[test]
fn errors_carry_their_status_and_message() {
    assert_eq!(SwapServerError::SwapLocked.code(), StatusCode::FailedPrecondition);
    assert_eq!(SwapServerError::SwapLocked.message(), "swap is locked");
    assert_eq!(
        SwapServerError::AmountMismatch.message(),
        "confirmed utxo values don't match invoice value"
    );
    assert!(matches!(
        lock_refusal(&LockSwapError::AlreadyLocked),
        SwapServerError::SwapLocked
    ));
    assert!(matches!(
        lock_refusal(&LockSwapError::SwapNotFound),
        SwapServerError::Internal
    ));
    assert!(pay_outcome(&PaymentResult::Success { preimage: [0u8; 32] }).is_ok());
    assert!(matches!(
        pay_outcome(&PaymentResult::Failure { error: String::from("x") }),
        Err(SwapServerError::PaymentFailed)
    ));
}

#[test]
fn payout_limit_leaves_room_for_the_claim() {
    // An output confirmed at 1000 with a lock time of 200: at 1000, 200
    // blocks left, 72 kept for the claim, the invoice needs 40 of the rest.
    assert_eq!(payout_cltv_limit(200, 1000, 1000, 72, 40, 18).unwrap(), 128);
    assert!(matches!(
        payout_cltv_limit(200, 1000, 1000, 72, 120, 18),
        Err(SwapServerError::SwapExpired)
    ));
    assert!(matches!(
        payout_cltv_limit(200, 1000, 1300, 72, 40, 18),
        Err(SwapServerError::SwapExpired)
    ));
    assert!(matches!(
        payout_cltv_limit(200, 1000, 1128, 72, 0, 0),
        Err(SwapServerError::SwapExpired)
    ));
    // The same lock counted from a later confirmation leaves more room.
    assert_eq!(payout_cltv_limit(200, 1100, 1128, 72, 40, 18).unwrap(), 100);
}

fn txo(height: u64, value: u64, n: u8) -> Txo {
    Txo {
        block_hash: BlockHash::from_bytes([n; 32]),
        block_height: height,
        outpoint: OutPoint::new(Txid { bytes: [n; 32] }, 0),
        tx_out: TxOut { value_sat: value, script_pubkey: vec![] },
    }
}

#[test]
fn payable_outputs_need_confirmations_and_value() {
    let txos = vec![txo(100, 5_000, 1), txo(105, 5_000, 2), txo(90, 100, 3), txo(95, 7_000, 4)];
    let paid = payable_txos(txos, 105, 3, 1_000);
    let values: Vec<u64> = paid.iter().map(|t| t.tx_out.value_sat).collect();
    assert_eq!(values, vec![5_000, 7_000]);
    assert!(check_amount_matches(&paid, 12_000).is_ok());
    assert!(matches!(
        check_amount_matches(&paid, 12_001),
        Err(SwapServerError::AmountMismatch)
    ));
    assert_eq!(txo(100, 1, 1).confirmations(105), 6);
    assert_eq!(txo(100, 1, 1).confirmations(99), 0);
}

#[test]
fn payout_fee_limit() {
    assert_eq!(fee_limit_msat(1_000, 50_000_000, 5_000), 251_000);
    assert_eq!(fee_limit_msat(0, u64::MAX, 2), (u64::MAX / 1_000_000));
}

#[test]
fn refund_checks() {
    assert_eq!(check_input_index(1, 2).unwrap(), 1);
    assert!(matches!(check_input_index(2, 2), Err(SwapServerError::InvalidInputIndex)));
    let outputs = vec![
        TxOut { value_sat: 1, script_pubkey: vec![1] },
        TxOut { value_sat: 2, script_pubkey: vec![2] },
    ];
    assert_eq!(spent_output(&outputs, 1).unwrap().value_sat, 2);
    assert!(matches!(
        spent_output(&outputs, 2),
        Err(SwapServerError::InvalidTransactionInput)
    ));
    assert!(refund_payment_check(Ok(false)).is_ok());
    assert!(matches!(refund_payment_check(Ok(true)), Err(SwapServerError::SwapLocked)));
    assert!(matches!(refund_payment_check(Err(())), Err(SwapServerError::Internal)));
}

#[test]
fn refund_prevout_must_pay_the_swap_address() {
    let script = p2wpkh_script();
    assert!(check_refund_prevout(&script, Network::Bitcoin, &String::from(MAINNET_P2WPKH)).is_ok());
    assert!(check_refund_prevout(&script, Network::Testnet, &String::from(TESTNET_P2WPKH)).is_ok());
    assert!(matches!(
        check_refund_prevout(&script, Network::Testnet, &String::from(MAINNET_P2WPKH)),
        Err(SwapServerError::InvalidTransactionInput)
    ));
    assert!(matches!(
        check_refund_prevout(&vec![0x6a], Network::Bitcoin, &String::from(MAINNET_P2WPKH)),
        Err(SwapServerError::InvalidTransactionInput)
    ));
}

#[test]
fn block_outputs_to_watched_addresses_become_utxos() {
    let tx = BlockTx {
        txid: Txid { bytes: [7u8; 32] },
        outputs: vec![
            TxOut { value_sat: 10, script_pubkey: vec![0x6a, 0x01, 0x00] },
            TxOut { value_sat: 20, script_pubkey: p2wpkh_script() },
        ],
        inputs: vec![OutPoint::new(Txid { bytes: [5u8; 32] }, 3)],
    };
    let block = BlockData {
        hash: BlockHash::from_bytes([8u8; 32]),
        prev: BlockHash::from_bytes([6u8; 32]),
        height: 800_000,
        txs: vec![tx],
    };
    let contents = block_contents(&block, Network::Bitcoin);
    assert_eq!(contents.addresses, vec![String::from(MAINNET_P2WPKH)]);
    assert_eq!(contents.outputs.len(), 1);
    assert_eq!(contents.outputs[0].outpoint, OutPoint::new(Txid { bytes: [7u8; 32] }, 1));
    assert_eq!(contents.spent.len(), 1);
    assert_eq!(contents.spent[0].outpoint, OutPoint::new(Txid { bytes: [5u8; 32] }, 3));
    assert_eq!(contents.spent[0].spending_input_index, 0);
    let utxos = watched_utxos(
        &contents.outputs,
        &vec![String::from(MAINNET_P2WPKH)],
        block.hash,
        block.height,
    );
    assert_eq!(utxos.len(), 1);
    assert_eq!(utxos[0].address, MAINNET_P2WPKH);
    assert_eq!(utxos[0].utxo.tx_out.value_sat, 20);
    assert_eq!(utxos[0].utxo.block_height, 800_000);
    let none = watched_utxos(&contents.outputs, &vec![String::from(TESTNET_P2WPKH)], block.hash, 1);
    assert!(none.is_empty());
}

#[test]
fn swap_lookup_needs_exactly_one_valid_key() {
    assert!(matches!(
        swap_query(Some(String::from(MAINNET_P2WPKH)), None, None, Network::Bitcoin),
        Ok(SwapQuery::ByAddress(a)) if a == MAINNET_P2WPKH
    ));
    assert!(matches!(
        swap_query(Some(String::from(MAINNET_P2WPKH)), None, None, Network::Testnet),
        Err(InternalServerError::InvalidNetworkForAddress)
    ));
    assert!(matches!(
        swap_query(Some(String::from("not an address")), None, None, Network::Bitcoin),
        Err(InternalServerError::InvalidAddress)
    ));
    assert!(matches!(
        swap_query(None, Some(String::from("lnbc1")), None, Network::Bitcoin),
        Ok(SwapQuery::ByPaymentRequest(p)) if p == "lnbc1"
    ));
    assert!(matches!(
        swap_query(None, None, Some(vec![9u8; 32]), Network::Bitcoin),
        Ok(SwapQuery::ByHash(h)) if h == PaymentHash { bytes: [9u8; 32] }
    ));
    assert!(matches!(
        swap_query(None, None, Some(vec![9u8; 31]), Network::Bitcoin),
        Err(InternalServerError::InvalidPaymentHash)
    ));
    assert!(matches!(
        swap_query(None, None, None, Network::Bitcoin),
        Err(InternalServerError::MissingParameter)
    ));
    assert!(matches!(
        swap_query(Some(String::from(MAINNET_P2WPKH)), Some(String::from("lnbc1")), None, Network::Bitcoin),
        Err(InternalServerError::MissingParameter)
    ));
    assert!(matches!(
        swap_lookup_error(GetSwapsError::NotFound, String::from("x")),
        InternalServerError::SwapNotFound
    ));
    assert!(matches!(
        swap_lookup_error(GetSwapsError::InvalidPreimage, String::from("x")),
        InternalServerError::Internal(t) if t == "x"
    ));
}

#[test]
fn only_valid_addresses_are_filtered() {
    let kept = addresses_to_filter(
        &vec![
            String::from(MAINNET_P2WPKH),
            String::from("garbage"),
            String::from(TESTNET_P2WPKH),
        ],
        Network::Bitcoin,
    );
    assert_eq!(kept, vec![String::from(MAINNET_P2WPKH)]);
}

fn claimable(tag: u8, lock_time: u16) -> ClaimableUtxo {
    ClaimableUtxo {
        swap: Swap {
            creation_time: 0,
            public: SwapPublicData {
                address: String::from(MAINNET_P2WPKH),
                claim_pubkey: [2u8; 33],
                claim_script: vec![],
                hash: PaymentHash { bytes: [tag; 32] },
                lock_time,
                refund_pubkey: [3u8; 33],
                refund_script: vec![],
            },
            private: SwapPrivateData { claim_privkey: [1u8; 32] },
        },
        utxo: txo(100, 1_000, tag),
        paid_with_request: None,
        preimage: [0u8; 32],
    }
}

#[test]
fn claim_request_selects_outputs_by_outpoint() {
    // Each output confirmed at height 100.
    let all = vec![claimable(1, 200), claimable(2, 150), claimable(3, 300)];
    let text = |n: u8| format!("{}:0", hex_of_reversed([n; 32]));
    let idx = select_claimables(&all, &vec![text(3), text(2)]).unwrap();
    assert_eq!(idx, vec![2, 1]);
    assert_eq!(selected_min_blocks_left(&all, &idx, 200).unwrap(), 50);
    assert!(matches!(
        selected_min_blocks_left(&all, &vec![], 200),
        Err(InternalServerError::NoOutpointsSelected)
    ));
    assert!(matches!(
        select_claimables(&all, &vec![text(2), String::from("bad")]),
        Err(InternalServerError::InvalidOutpoint(t)) if t == "bad"
    ));
    assert!(matches!(
        select_claimables(&all, &vec![text(9)]),
        Err(InternalServerError::OutpointNotFound(op)) if op == OutPoint::new(Txid { bytes: [9u8; 32] }, 0)
    ));
}

fn hex_of_reversed(bytes: [u8; 32]) -> String {
    bytes.iter().rev().map(|b| format!("{:02x}", b)).collect()
}

#[test]
fn swap_arithmetic() {
    assert_eq!(swap_lock_time(288).unwrap(), 288);
    assert_eq!(swap_lock_time(65_535).unwrap(), 65_535);
    assert!(matches!(swap_lock_time(65_536), Err(SwapError::InvalidLockTime(65_536))));
    assert_eq!(total_value(&vec![1, 2, 3]), 6);
    assert_eq!(total_value(&vec![]), 0);
    // 2 inputs: 500 + 2 * 209 = 918 weight; at 1000 sat/kw the fee is 918.
    assert_eq!(claim_output_value(10_000, 500, 2, 1000, 546).unwrap(), 9_082);
    // The fee rounds up: 918 * 3 / 1000 = 2.754 -> 3.
    assert_eq!(claim_output_value(10_000, 500, 2, 3, 546).unwrap(), 9_997);
    assert!(matches!(
        claim_output_value(1_000, 500, 2, 1000, 546),
        Err(SwapError::AmountTooLow)
    ));
    assert!(matches!(
        claim_output_value(1_000, u64::MAX, 1, 0, 0),
        Err(SwapError::InvalidWeight)
    ));
}

#[test]
fn bitcoind_refusal_of_a_cheap_replacement_is_recognised() {
    let message = String::from(
        "insufficient fee, rejecting replacement abc; new feerate 0.0001 <= old feerate 0.0002",
    );
    assert!(matches!(
        broadcast_error_of(message.clone()),
        BroadcastError::InsufficientFeeRejectingReplacement(m) if m == message
    ));
    assert!(matches!(
        broadcast_error_of(String::from("bad-txns-inputs-missingorspent")),
        BroadcastError::UnknownError(m) if m == "bad-txns-inputs-missingorspent"
    ));
    assert!(contains("abc", ""));
    assert!(contains("abc", "c"));
    assert!(!contains("ab", "abc"));
    assert!(contains("xxinsufficient fee", "insufficient fee"));
}

#[test]
fn claim_inputs_are_ordered_by_outpoint() {
    let mut a = claimable(1, 300);
    a.utxo.outpoint = OutPoint::new(Txid { bytes: [2u8; 32] }, 1);
    let mut b = claimable(2, 300);
    b.utxo.outpoint = OutPoint::new(Txid { bytes: [1u8; 32] }, 7);
    let mut c = claimable(3, 300);
    c.utxo.outpoint = OutPoint::new(Txid { bytes: [2u8; 32] }, 0);
    let mut d = claimable(4, 300);
    let mut low = [2u8; 32];
    low[31] = 1;
    d.utxo.outpoint = OutPoint::new(Txid { bytes: low }, 9);
    let all = vec![a, b, c, d];
    assert_eq!(claim_input_order(&all), vec![1, 3, 2, 0]);
    assert!(claim_input_order(&vec![]).is_empty());
}

#[test]
fn earlier_payout_flow_takes_outputs_in_the_confirmation_window() {
    let txos = vec![txo(100, 1, 1), txo(110, 2, 2), txo(10, 3, 3), txo(120, 4, 4), txo(130, 5, 5)];
    // At height 120 with lock time 100 and 72 blocks for redeeming, 1 to 28
    // blocks deep qualifies.
    let kept = utxos_in_confirmation_window(txos, 120, 1, 100, 72);
    let values: Vec<u64> = kept.iter().map(|t| t.tx_out.value_sat).collect();
    assert_eq!(values, vec![1, 2]);
    let none = utxos_in_confirmation_window(vec![txo(100, 1, 1)], 120, 1, 50, 72);
    assert!(none.is_empty());
    // With a lock time below the blocks kept for redeeming, not even an
    // unconfirmed-depth output at the tip is eligible.
    let none = utxos_in_confirmation_window(vec![txo(120, 1, 1)], 120, 0, 50, 72);
    assert!(none.is_empty());
}

#[test]
fn decisions_on_given_parse_results() {
    let swap_address = String::from(MAINNET_P2WPKH);
    assert!(prevout_pays_address(&Some(swap_address.clone()), &swap_address).is_ok());
    assert!(matches!(
        prevout_pays_address(&Some(String::from(TESTNET_P2WPKH)), &swap_address),
        Err(SwapServerError::InvalidTransactionInput)
    ));
    assert!(matches!(
        prevout_pays_address(&None, &swap_address),
        Err(SwapServerError::InvalidTransactionInput)
    ));
    assert!(matches!(
        swap_request_keys(Some([2u8; 33]), &vec![1u8; 32]),
        Ok((k, h)) if k == [2u8; 33] && h == PaymentHash { bytes: [1u8; 32] }
    ));
    assert!(matches!(
        swap_request_keys(None, &vec![1u8; 3]),
        Err(SwapServerError::InvalidRefundPubkey)
    ));
    assert!(matches!(
        swap_request_keys(Some([2u8; 33]), &vec![1u8; 3]),
        Err(SwapServerError::InvalidHash)
    ));
    assert!(matches!(
        address_query(Ok(String::from("bc1qexample"))),
        Ok(SwapQuery::ByAddress(a)) if a == "bc1qexample"
    ));
    assert!(matches!(
        address_query(Err(AddressError::Invalid)),
        Err(InternalServerError::InvalidAddress)
    ));
    assert!(matches!(
        address_query(Err(AddressError::WrongNetwork)),
        Err(InternalServerError::InvalidNetworkForAddress)
    ));
    let all = vec![claimable(1, 10), claimable(2, 10), claimable(1, 20)];
    assert_eq!(find_claimable(&all, &OutPoint::new(Txid { bytes: [1u8; 32] }, 0)), Some(0));
    assert_eq!(find_claimable(&all, &OutPoint::new(Txid { bytes: [3u8; 32] }, 0)), None);
}

#[test]
fn block_read_with_given_addresses() {
    let tx = BlockTx {
        txid: Txid { bytes: [7u8; 32] },
        outputs: vec![
            TxOut { value_sat: 10, script_pubkey: vec![1] },
            TxOut { value_sat: 20, script_pubkey: vec![2] },
            TxOut { value_sat: 30, script_pubkey: vec![3] },
        ],
        inputs: vec![],
    };
    let block = BlockData {
        hash: BlockHash::from_bytes([8u8; 32]),
        prev: BlockHash::from_bytes([6u8; 32]),
        height: 5,
        txs: vec![tx],
    };
    let table = vec![vec![Some(String::from("a")), None, Some(String::from("c"))]];
    let contents = block_contents_from(&block, &table);
    assert_eq!(contents.addresses, vec![String::from("a"), String::from("c")]);
    assert_eq!(contents.outputs[1].outpoint, OutPoint::new(Txid { bytes: [7u8; 32] }, 2));
    assert_eq!(contents.outputs[1].tx_out.value_sat, 30);
    assert!(contents.spent.is_empty());
    let found = script_addresses_of(&block.txs[0], Network::Bitcoin);
    assert_eq!(found, vec![None, None, None]);
}

#[test]
fn refund_names_an_address_of_the_network() {
    assert_eq!(
        refund_address(&String::from(MAINNET_P2WPKH), Network::Bitcoin).unwrap(),
        MAINNET_P2WPKH
    );
    assert_eq!(
        refund_address(&String::from(MAINNET_P2WPKH), Network::Regtest),
        Err(SwapServerError::InvalidAddress)
    );
    assert_eq!(
        refund_address(&String::from("nonsense"), Network::Bitcoin),
        Err(SwapServerError::InvalidAddress)
    );
    assert_eq!(SwapServerError::InvalidAddress.message(), "invalid address");
    assert_eq!(checked_refund_address(Err(AddressError::WrongNetwork)), Err(SwapServerError::InvalidAddress));
    assert_eq!(checked_refund_address(Ok(String::from("x"))), Ok(String::from("x")));
}

#[test]
fn filtered_senders_drop_their_outputs() {
    let txos = vec![txo(100, 5_000, 1), txo(101, 6_000, 2), txo(102, 7_000, 3)];
    let kept = filter_txos(txos.clone(), &vec![Ok(false), Ok(true), Ok(false)]).unwrap();
    let values: Vec<u64> = kept.iter().map(|t| t.tx_out.value_sat).collect();
    assert_eq!(values, vec![5_000, 7_000]);
    assert!(filter_txos(txos.clone(), &vec![Ok(false), Err(()), Ok(false)]).is_err());
    assert!(filter_txos(vec![], &vec![]).unwrap().is_empty());
}
