use vstd::prelude::*;

use crate::chain::decode::{decode_tx, spec_decode_tx};
use crate::chain::fee_estimator::FeeEstimateError;
use crate::chain::types::{bytes32_from_slice, Network, OutPoint, Txid, Txo};
use crate::hex_text::{hex_of_reversed, push_hex_reversed};
use crate::lnd::{decimal, push_decimal};
use crate::public_server::StatusCode;
use crate::claim::monitor::{min_blocks_left, min_blocks_left_spec};
use crate::swap::swap_repository::GetSwapsError;
use crate::swap::swap_service::{ClaimableUtxo, PaymentHash};

verus! {

/// Names what the bitcoin crate makes of a text as an address: `None` where
/// it does not parse, `Some(None)` where it parses but belongs to another
/// network than the one given, else the address as its `Display` writes it.
pub uninterp spec fn spec_parse_address(text: Seq<char>, network: Network) -> Option<
    Option<Seq<char>>,
>;

/// Why an address was refused.
#[derive(Clone, Copy, Debug, PartialEq, Eq)]
pub enum AddressError {
    Invalid,
    WrongNetwork,
}

/// Parses an address with the bitcoin crate (`str::parse` into
/// `Address<NetworkUnchecked>`, then its `require_network`) and renders the
/// checked address with its `Display`. The result is named, not stated.
#[verifier::external_body]
pub(crate) fn parse_address(text: &String, network: Network) -> (r: Result<String, AddressError>)
    ensures
        match r {
            Ok(a) => spec_parse_address(text@, network) == Some(Some(a@)),
            Err(AddressError::Invalid) => spec_parse_address(text@, network) is None,
            Err(AddressError::WrongNetwork) => spec_parse_address(text@, network) == Some(
                None::<Seq<char>>,
            ),
        },
{
    let params = match network {
        Network::Bitcoin => bitcoin::Network::Bitcoin,
        Network::Testnet => bitcoin::Network::Testnet,
        Network::Testnet4 => bitcoin::Network::Testnet4,
        Network::Signet => bitcoin::Network::Signet,
        Network::Regtest => bitcoin::Network::Regtest,
    };
    match text.parse::<bitcoin::Address<bitcoin::address::NetworkUnchecked>>() {
        Ok(unchecked) => match unchecked.require_network(params) {
            Ok(address) => Ok(address.to_string()),
            Err(_) => Err(AddressError::WrongNetwork),
        },
        Err(_) => Err(AddressError::Invalid),
    }
}

/// Names what the bitcoin crate's `OutPoint` parser makes of a text of the
/// form `TXID:VOUT`, with the txid in the byte order of its encoding.
pub uninterp spec fn spec_parse_outpoint(text: Seq<char>) -> Option<OutPoint>;

/// Parses an outpoint with `str::parse` into `bitcoin::OutPoint`. The result
/// is named, not stated.
#[verifier::external_body]
pub(crate) fn parse_outpoint(text: &String) -> (r: Option<OutPoint>)
    ensures
        r == spec_parse_outpoint(text@),
{
    match text.parse::<bitcoin::OutPoint>() {
        Ok(o) => Some(
            OutPoint {
                txid: Txid { bytes: bitcoin::hashes::Hash::to_byte_array(o.txid) },
                vout: o.vout,
            },
        ),
        Err(_) => None,
    }
}

/// Refusals of the internal server.
#[derive(Debug)]
pub enum InternalServerError {
    InvalidAddress,
    InvalidNetworkForAddress,
    InvalidPaymentHash,
    MissingParameter,
    SwapNotFound,
    InvalidOutpoint(String),
    OutpointNotFound(OutPoint),
    NoOutpointsSelected,
    Internal(String),
}

/// The text of an outpoint: its transaction id in hexadecimal, a colon and
/// its output index.
pub open spec fn outpoint_text(op: OutPoint) -> Seq<char> {
    hex_of_reversed(op.txid.bytes@) + ":"@ + decimal(op.vout as nat)
}

/// Appends the text of an outpoint.
pub fn push_outpoint(s: &mut String, op: &OutPoint)
    ensures
        final(s)@ == old(s)@ + outpoint_text(*op),
{
    push_hex_reversed(s, &op.txid.bytes);
    s.append(":");
    push_decimal(s, op.vout as u64);
    assert(final(s)@ =~= old(s)@ + outpoint_text(*op));
}

/// The status code of each refusal of the internal server.
pub open spec fn internal_status_of(e: InternalServerError) -> StatusCode {
    match e {
        InternalServerError::SwapNotFound => StatusCode::NotFound,
        InternalServerError::Internal(_) => StatusCode::Internal,
        _ => StatusCode::InvalidArgument,
    }
}

/// The message of each refusal of the internal server.
pub open spec fn internal_message_of(e: InternalServerError) -> Seq<char> {
    match e {
        InternalServerError::InvalidAddress => "invalid address"@,
        InternalServerError::InvalidNetworkForAddress => "invalid network for address"@,
        InternalServerError::InvalidPaymentHash => "invalid payment hash"@,
        InternalServerError::MissingParameter => "one of the parameters must be set"@,
        InternalServerError::SwapNotFound => "swap not found"@,
        InternalServerError::InvalidOutpoint(text) => "invalid outpoint "@ + text@,
        InternalServerError::OutpointNotFound(op) => "outpoint "@ + outpoint_text(op) + " not found"@,
        InternalServerError::NoOutpointsSelected => "no outpoints selected"@,
        InternalServerError::Internal(text) => text@,
    }
}

impl InternalServerError {
    /// The status code that the refusal is answered with.
    pub fn code(&self) -> (c: StatusCode)
        ensures
            c == internal_status_of(*self),
    {
        match self {
            InternalServerError::SwapNotFound => StatusCode::NotFound,
            InternalServerError::Internal(_) => StatusCode::Internal,
            _ => StatusCode::InvalidArgument,
        }
    }

    /// The message that the refusal is answered with.
    pub fn message(&self) -> (m: String)
        ensures
            m@ == internal_message_of(*self),
    {
        match self {
            InternalServerError::InvalidAddress => String::from_str("invalid address"),
            InternalServerError::InvalidNetworkForAddress => String::from_str("invalid network for address"),
            InternalServerError::InvalidPaymentHash => String::from_str("invalid payment hash"),
            InternalServerError::MissingParameter => String::from_str("one of the parameters must be set"),
            InternalServerError::SwapNotFound => String::from_str("swap not found"),
            InternalServerError::InvalidOutpoint(text) => {
                let mut m = String::from_str("invalid outpoint ");
                m.append(text.as_str());
                m
            },
            InternalServerError::OutpointNotFound(op) => {
                let mut m = String::from_str("outpoint ");
                push_outpoint(&mut m, op);
                m.append(" not found");
                m
            },
            InternalServerError::NoOutpointsSelected => String::from_str("no outpoints selected"),
            InternalServerError::Internal(text) => text.clone(),
        }
    }
}

/// One output of a swap in the answer to a swap lookup.
#[derive(Debug)]
pub struct SwapOutputEntry {
    pub confirmation_height: u64,
    pub outpoint: String,
    pub block_hash: String,
}

/// The answer to a swap lookup: the swap's address and its outputs.
#[derive(Debug)]
pub struct GetSwapAnswer {
    pub address: String,
    pub outputs: Vec<SwapOutputEntry>,
}

/// Whether an answer entry describes an output: its confirmation height,
/// its outpoint's text and its block hash in hexadecimal.
pub open spec fn entry_describes(entry: SwapOutputEntry, utxo: Txo) -> bool {
    &&& entry.confirmation_height == utxo.block_height
    &&& entry.outpoint@ == outpoint_text(utxo.outpoint)
    &&& entry.block_hash@ == hex_of_reversed(utxo.block_hash.bytes@)
}

/// The answer to a swap lookup: the swap's address, and one entry per
/// output paid to it, in the order given.
pub fn get_swap_answer(address: &String, utxos: &Vec<Txo>) -> (r: GetSwapAnswer)
    ensures
        r.address@ == address@,
        r.outputs@.len() == utxos@.len(),
        forall|i: int| 0 <= i < utxos@.len() ==> entry_describes(#[trigger] r.outputs@[i], utxos@[i]),
{
    let mut outputs: Vec<SwapOutputEntry> = Vec::new();
    let mut i: usize = 0;
    while i < utxos.len()
        invariant
            0 <= i <= utxos@.len(),
            outputs@.len() == i,
            forall|j: int| 0 <= j < i ==> entry_describes(#[trigger] outputs@[j], utxos@[j]),
        decreases utxos@.len() - i,
    {
        let utxo = &utxos[i];
        let mut outpoint = String::new();
        push_outpoint(&mut outpoint, &utxo.outpoint);
        let mut block_hash = String::new();
        push_hex_reversed(&mut block_hash, &utxo.block_hash.bytes);
        let ghost before = outputs@;
        outputs.push(SwapOutputEntry { confirmation_height: utxo.block_height, outpoint, block_hash });
        proof {
            assert forall|j: int| 0 <= j <= i implies entry_describes(#[trigger] outputs@[j], utxos@[j]) by {
                if j < i {
                    assert(outputs@[j] == before[j]);
                }
            }
        }
        i = i + 1;
    }
    GetSwapAnswer { address: address.clone(), outputs }
}

/// The fee rate of a claim that an operator asks for: the rate the request
/// names, else the estimate (which is only asked for then); a failed
/// estimate is an internal error.
pub fn claim_fee_rate(requested: Option<u32>, estimate: Result<u32, FeeEstimateError>) -> (r: Result<
    u32,
    InternalServerError,
>)
    ensures
        match requested {
            Some(f) => r == Ok::<u32, InternalServerError>(f),
            None => match estimate {
                Ok(e) => r == Ok::<u32, InternalServerError>(e),
                Err(_) => r matches Err(InternalServerError::Internal(m)) && m@ == "internal error"@,
            },
        },
{
    match requested {
        Some(f) => Ok(f),
        None => match estimate {
            Ok(e) => Ok(e),
            Err(_) => Err(InternalServerError::Internal(String::from_str("internal error"))),
        },
    }
}

/// The destination of a claim that an operator asks for: the address the
/// request names, which must belong to the network, else none (a new
/// address of the wallet is then used).
pub fn claim_destination(requested: &Option<String>, network: Network) -> (r: Result<
    Option<String>,
    InternalServerError,
>)
    ensures
        match requested {
            None => r matches Ok(None),
            Some(text) => match spec_parse_address(text@, network) {
                None => r matches Err(InternalServerError::InvalidAddress),
                Some(None) => r matches Err(InternalServerError::InvalidNetworkForAddress),
                Some(Some(a)) => r matches Ok(Some(d)) && d@ == a,
            },
        },
{
    match requested {
        None => Ok(None),
        Some(text) => match parse_address(text, network) {
            Ok(a) => Ok(Some(a)),
            Err(AddressError::Invalid) => Err(InternalServerError::InvalidAddress),
            Err(AddressError::WrongNetwork) => Err(InternalServerError::InvalidNetworkForAddress),
        },
    }
}

/// The answer to a claim: the claim transaction's id in hexadecimal, and the
/// fee rate it was made at.
#[derive(Debug)]
pub struct ClaimAnswer {
    pub tx_id: String,
    pub fee_per_kw: u32,
}

/// The answer to a claim made with the encoded transaction `tx`.
pub fn claim_answer(tx: &Vec<u8>, fee_per_kw: u32) -> (r: Result<ClaimAnswer, InternalServerError>)
    ensures
        match spec_decode_tx(tx@) {
            None => r matches Err(InternalServerError::Internal(_)),
            Some((txid, _, _)) => r matches Ok(a) && a.tx_id@ == hex_of_reversed(txid.bytes@)
                && a.fee_per_kw == fee_per_kw,
        },
{
    match decode_tx(tx) {
        Some(decoded) => {
            let mut tx_id = String::new();
            push_hex_reversed(&mut tx_id, &decoded.txid.bytes);
            Ok(ClaimAnswer { tx_id, fee_per_kw })
        },
        None => Err(InternalServerError::Internal(String::from_str("invalid claim transaction"))),
    }
}

/// How a swap is looked up.
#[derive(Debug)]
pub enum SwapQuery {
    ByAddress(String),
    ByPaymentRequest(String),
    ByHash(PaymentHash),
}

/// The lookup that a request for a swap asks for: exactly one of address,
/// payment request and payment hash must be given, the address valid on the
/// server's network and the hash 32 bytes long.
pub fn swap_query(
    address: Option<String>,
    payment_request: Option<String>,
    payment_hash: Option<Vec<u8>>,
    network: Network,
) -> (r: Result<SwapQuery, InternalServerError>)
    ensures
        match (address, payment_request, payment_hash) {
            (Some(a), None, None) => match spec_parse_address(a@, network) {
                None => r matches Err(InternalServerError::InvalidAddress),
                Some(None) => r matches Err(InternalServerError::InvalidNetworkForAddress),
                Some(Some(checked)) => r matches Ok(SwapQuery::ByAddress(q)) && q@ == checked,
            },
            (None, Some(p), None) => r matches Ok(SwapQuery::ByPaymentRequest(q)) && q == p,
            (None, None, Some(h)) => if h@.len() == 32 {
                r matches Ok(SwapQuery::ByHash(q)) && q.bytes@ == h@
            } else {
                r matches Err(InternalServerError::InvalidPaymentHash)
            },
            _ => r matches Err(InternalServerError::MissingParameter),
        },
{
    match (address, payment_request, payment_hash) {
        (Some(a), None, None) => address_query(parse_address(&a, network)),
        (None, Some(p), None) => Ok(SwapQuery::ByPaymentRequest(p)),
        (None, None, Some(h)) => match bytes32_from_slice(&h) {
            Some(bytes) => Ok(SwapQuery::ByHash(PaymentHash { bytes })),
            None => Err(InternalServerError::InvalidPaymentHash),
        },
        _ => Err(InternalServerError::MissingParameter),
    }
}

/// The lookup by a parsed address, or the refusal of an address that does
/// not parse or belongs to another network.
pub fn address_query(parsed: Result<String, AddressError>) -> (r: Result<SwapQuery, InternalServerError>)
    ensures
        match parsed {
            Ok(a) => r matches Ok(SwapQuery::ByAddress(q)) && q == a,
            Err(AddressError::Invalid) => r matches Err(InternalServerError::InvalidAddress),
            Err(AddressError::WrongNetwork) => r matches Err(
                InternalServerError::InvalidNetworkForAddress,
            ),
        },
{
    match parsed {
        Ok(checked) => Ok(SwapQuery::ByAddress(checked)),
        Err(AddressError::Invalid) => Err(InternalServerError::InvalidAddress),
        Err(AddressError::WrongNetwork) => Err(InternalServerError::InvalidNetworkForAddress),
    }
}

/// The refusal for a failed swap lookup: not found, or an internal error
/// that carries the lookup's error text.
pub fn swap_lookup_error(e: GetSwapsError, text: String) -> (r: InternalServerError)
    ensures
        match e {
            GetSwapsError::NotFound => r is SwapNotFound,
            _ => r matches InternalServerError::Internal(t) && t == text,
        },
{
    match e {
        GetSwapsError::NotFound => InternalServerError::SwapNotFound,
        _ => InternalServerError::Internal(text),
    }
}

/// The addresses kept of a list of addresses to filter, in order: those
/// that parse and belong to the server's network.
pub open spec fn valid_addresses(texts: Seq<String>, network: Network) -> Seq<Seq<char>>
    decreases texts.len(),
{
    if texts.len() == 0 {
        Seq::empty()
    } else {
        let rest = valid_addresses(texts.drop_last(), network);
        match spec_parse_address(texts.last()@, network) {
            Some(Some(a)) => rest.push(a),
            _ => rest,
        }
    }
}

/// The addresses to add to the filter: the valid ones, the others skipped.
pub fn addresses_to_filter(texts: &Vec<String>, network: Network) -> (r: Vec<String>)
    ensures
        r@.map_values(|a: String| a@) == valid_addresses(texts@, network),
{
    let mut r: Vec<String> = Vec::new();
    let mut i: usize = 0;
    while i < texts.len()
        invariant
            0 <= i <= texts@.len(),
            r@.map_values(|a: String| a@) == valid_addresses(texts@.subrange(0, i as int), network),
        decreases texts.len() - i,
    {
        proof {
            assert(texts@.subrange(0, i as int + 1).drop_last() =~= texts@.subrange(0, i as int));
        }
        let ghost before = r@;
        match parse_address(&texts[i], network) {
            Ok(a) => {
                r.push(a);
                assert(r@.map_values(|a: String| a@) =~= before.map_values(|a: String| a@).push(
                    r@.last()@,
                ));
            },
            Err(_) => {},
        }
        i = i + 1;
    }
    assert(texts@.subrange(0, texts@.len() as int) =~= texts@);
    r
}

/// The position of the first claimable output at `op`, if any.
pub open spec fn first_claimable_at(cl: Seq<ClaimableUtxo>, op: OutPoint) -> Option<int> {
    if exists|i: int| 0 <= i < cl.len() && #[trigger] cl[i].utxo.outpoint == op {
        Some(
            choose|i: int|
                0 <= i < cl.len() && #[trigger] cl[i].utxo.outpoint == op && forall|j: int|
                    0 <= j < i ==> cl[j].utxo.outpoint != op,
        )
    } else {
        None
    }
}

proof fn lemma_first_claimable_at(cl: Seq<ClaimableUtxo>, op: OutPoint, i: int)
    requires
        0 <= i < cl.len(),
        cl[i].utxo.outpoint == op,
        forall|j: int| 0 <= j < i ==> cl[j].utxo.outpoint != op,
    ensures
        first_claimable_at(cl, op) == Some(i),
{
    let k = choose|k: int|
        0 <= k < cl.len() && #[trigger] cl[k].utxo.outpoint == op && forall|j: int|
            0 <= j < k ==> cl[j].utxo.outpoint != op;
    assert(0 <= k < cl.len() && cl[k].utxo.outpoint == op);
    if k < i {
        assert(cl[k].utxo.outpoint != op);
    } else if k > i {
        assert(cl[i].utxo.outpoint != op);
    }
}

/// The position of the first claimable output at outpoint `op`, if any.
pub fn find_claimable(all: &Vec<ClaimableUtxo>, op: &OutPoint) -> (r: Option<usize>)
    ensures
        match r {
            Some(i) => first_claimable_at(all@, *op) == Some(i as int),
            None => first_claimable_at(all@, *op) is None,
        },
{
    let mut i: usize = 0;
    while i < all.len()
        invariant
            0 <= i <= all@.len(),
            forall|j: int| 0 <= j < i ==> (#[trigger] all@[j]).utxo.outpoint != *op,
        decreases all.len() - i,
    {
        if all[i].utxo.outpoint.same_as(op) {
            proof {
                lemma_first_claimable_at(all@, *op, i as int);
            }
            return Some(i);
        }
        i = i + 1;
    }
    None
}

/// The claimable outputs that a claim request names, in the order named,
/// each the first claimable output at that outpoint; refused at the first
/// text that is no outpoint or names no claimable output.
pub fn select_claimables(all: &Vec<ClaimableUtxo>, outpoints: &Vec<String>) -> (r: Result<
    Vec<usize>,
    InternalServerError,
>)
    ensures
        match r {
            Ok(idx) => idx@.len() == outpoints@.len() && forall|k: int|
                0 <= k < outpoints@.len() ==> {
                    &&& spec_parse_outpoint(#[trigger] outpoints@[k]@) matches Some(op)
                    &&& first_claimable_at(all@, op) == Some(idx@[k] as int)
                },
            Err(e) => exists|k: int|
                #![trigger outpoints@[k]]
                0 <= k < outpoints@.len() && (forall|j: int|
                    0 <= j < k ==> (spec_parse_outpoint(#[trigger] outpoints@[j]@) matches Some(op)
                        && first_claimable_at(all@, op) is Some)) && match spec_parse_outpoint(
                    outpoints@[k]@,
                ) {
                    None => e matches InternalServerError::InvalidOutpoint(t) && t
                        == outpoints@[k],
                    Some(op) => first_claimable_at(all@, op) is None && e
                        == InternalServerError::OutpointNotFound(op),
                },
        },
{
    let mut idx: Vec<usize> = Vec::new();
    let mut k: usize = 0;
    while k < outpoints.len()
        invariant
            0 <= k <= outpoints@.len(),
            idx@.len() == k,
            forall|j: int|
                0 <= j < k ==> {
                    &&& spec_parse_outpoint(#[trigger] outpoints@[j]@) matches Some(op)
                    &&& first_claimable_at(all@, op) == Some(idx@[j] as int)
                },
        decreases outpoints.len() - k,
    {
        let op = match parse_outpoint(&outpoints[k]) {
            Some(op) => op,
            None => {
                return Err(InternalServerError::InvalidOutpoint(outpoints[k].clone()));
            },
        };
        match find_claimable(all, &op) {
            Some(i) => idx.push(i),
            None => {
                return Err(InternalServerError::OutpointNotFound(op));
            },
        }
        k = k + 1;
    }
    Ok(idx)
}

/// The smallest number of blocks left among the selected outputs; refused
/// when none was selected.
pub fn selected_min_blocks_left(all: &Vec<ClaimableUtxo>, idx: &Vec<usize>, current_height: u64) -> (r:
    Result<i32, InternalServerError>)
    requires
        forall|k: int| 0 <= k < idx@.len() ==> #[trigger] idx@[k] < all@.len(),
    ensures
        match r {
            Ok(m) => min_blocks_left_spec(all@, idx@, current_height) == Some(m),
            Err(e) => idx@.len() == 0 && e is NoOutpointsSelected,
        },
{
    match min_blocks_left(all, idx, current_height) {
        Some(m) => Ok(m),
        None => Err(InternalServerError::NoOutpointsSelected),
    }
}

} // verus!
