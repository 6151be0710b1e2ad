use vstd::prelude::*;

use super::client::ChainError;
use super::monitor::{address_from_script, spec_address_from_script, BlockData, BlockTx};
use super::types::{BlockHash, Network, OutPoint, TxOut, Txid};
use crate::lnd::{hex_decode, hex_decoded};
use crate::swap::claim_tx::prevout_views;

verus! {

/// What the chain follower reads of a transaction: its id, its outputs'
/// values and scripts, and the outpoints its inputs spend.
pub open spec fn block_tx_view(tx: BlockTx) -> (Txid, Seq<(u64, Seq<u8>)>, Seq<OutPoint>) {
    (tx.txid, prevout_views(tx.outputs@), tx.inputs@)
}

/// Names what the bitcoin crate reads of the transaction that the bytes
/// begin with; `None` where no transaction decodes.
pub uninterp spec fn spec_decode_tx(tx: Seq<u8>) -> Option<(Txid, Seq<(u64, Seq<u8>)>, Seq<OutPoint>)>;

/// Names what the bitcoin crate reads of an encoded block: its hash, the
/// hash of its parent, each of its transactions encoded again, and the
/// height that its coinbase carries (BIP34), where it carries one; `None`
/// where the bytes are no block.
pub uninterp spec fn spec_decode_block(raw: Seq<u8>) -> Option<
    (BlockHash, BlockHash, Seq<Seq<u8>>, Option<u64>),
>;

/// Decodes a transaction from the start of the bytes with the bitcoin
/// crate's `Decodable::consensus_decode`, and reads its `compute_txid`,
/// outputs and inputs. What it reads is named, not stated.
#[verifier::external_body]
pub(crate) fn decode_tx(tx: &Vec<u8>) -> (r: Option<BlockTx>)
    ensures
        match r {
            Some(t) => spec_decode_tx(tx@) == Some(block_tx_view(t)),
            None => spec_decode_tx(tx@) is None,
        },
{
    let tx: bitcoin::Transaction = bitcoin::consensus::Decodable::consensus_decode(&mut tx.as_slice()).ok()?;
    let txid = Txid { bytes: bitcoin::hashes::Hash::to_byte_array(tx.compute_txid()) };
    let outputs = tx.output.iter().map(|o| TxOut { value_sat: o.value.to_sat(), script_pubkey: o.script_pubkey.to_bytes() }).collect();
    let inputs = tx.input.iter().map(|i| OutPoint {
        txid: Txid { bytes: bitcoin::hashes::Hash::to_byte_array(i.previous_output.txid) },
        vout: i.previous_output.vout,
    }).collect();
    Some(BlockTx { txid, outputs, inputs })
}

/// A block as the bitcoin crate decoded it.
pub struct DecodedBlock {
    pub hash: BlockHash,
    pub prev: BlockHash,
    /// Its transactions, each encoded again.
    pub txs: Vec<Vec<u8>>,
    pub bip34_height: Option<u64>,
}

/// The views of encoded transactions.
pub open spec fn tx_bytes_views(txs: Seq<Vec<u8>>) -> Seq<Seq<u8>> {
    Seq::new(txs.len(), |i: int| txs[i]@)
}

/// Decodes a block with the bitcoin crate's `consensus::deserialize`, and
/// reads its `block_hash`, its parent's hash, its transactions (with
/// `consensus::serialize`) and its `bip34_block_height`. What it reads is
/// named, not stated.
#[verifier::external_body]
pub(crate) fn decode_block(raw: &Vec<u8>) -> (r: Option<DecodedBlock>)
    ensures
        match r {
            Some(b) => spec_decode_block(raw@) == Some((b.hash, b.prev, tx_bytes_views(b.txs@), b.bip34_height)),
            None => spec_decode_block(raw@) is None,
        },
{
    let block: bitcoin::Block = bitcoin::consensus::deserialize(raw).ok()?;
    Some(DecodedBlock {
        hash: BlockHash { bytes: bitcoin::hashes::Hash::to_byte_array(block.block_hash()) },
        prev: BlockHash { bytes: bitcoin::hashes::Hash::to_byte_array(block.header.prev_blockhash) },
        txs: block.txdata.iter().map(bitcoin::consensus::serialize).collect(),
        bip34_height: block.bip34_block_height().ok(),
    })
}

/// The decoded transactions of a block, where each of them decodes.
pub open spec fn decoded_txs(txs: Seq<Seq<u8>>) -> Option<Seq<(Txid, Seq<(u64, Seq<u8>)>, Seq<OutPoint>)>> {
    if forall|i: int| 0 <= i < txs.len() ==> #[trigger] spec_decode_tx(txs[i]) is Some {
        Some(Seq::new(txs.len(), |i: int| spec_decode_tx(txs[i])->Some_0))
    } else {
        None
    }
}

/// Whether `r` is what the chain follower makes of an encoded block: its
/// hash, parent and transactions, at the height its coinbase carries; a
/// block without that height, or that does not decode, is refused.
pub open spec fn block_data_outcome(raw: Seq<u8>, r: Result<BlockData, ChainError>) -> bool {
    match spec_decode_block(raw) {
        None => r matches Err(e) && e is General,
        Some((hash, prev, txs, height)) => match (height, decoded_txs(txs)) {
            (Some(h), Some(views)) => r matches Ok(block) && block.hash == hash && block.prev == prev
                && block.height == h && block.txs@.len() == views.len() && forall|i: int|
                0 <= i < views.len() ==> block_tx_view(#[trigger] block.txs@[i]) == views[i],
            _ => r matches Err(e) && e is General,
        },
    }
}

/// What the chain follower makes of an encoded block.
pub fn block_data(raw: &Vec<u8>) -> (r: Result<BlockData, ChainError>)
    ensures
        block_data_outcome(raw@, r),
{
    let decoded = match decode_block(raw) {
        Some(d) => d,
        None => {
            return Err(ChainError::General(String::from_str("invalid block")));
        },
    };
    let height = match decoded.bip34_height {
        Some(h) => h,
        None => {
            return Err(ChainError::General(String::from_str("block carries no coinbase height")));
        },
    };
    let ghost tx_views = tx_bytes_views(decoded.txs@);
    let mut txs: Vec<BlockTx> = Vec::new();
    let mut i: usize = 0;
    while i < decoded.txs.len()
        invariant
            0 <= i <= decoded.txs@.len(),
            tx_views == tx_bytes_views(decoded.txs@),
            spec_decode_block(raw@) == Some((decoded.hash, decoded.prev, tx_views, Some(height))),
            txs@.len() == i,
            forall|j: int| 0 <= j < i ==> #[trigger] spec_decode_tx(tx_views[j]) is Some,
            forall|j: int|
                0 <= j < i ==> block_tx_view(#[trigger] txs@[j]) == spec_decode_tx(tx_views[j])->Some_0,
        decreases decoded.txs@.len() - i,
    {
        let tx = match decode_tx(&decoded.txs[i]) {
            Some(t) => t,
            None => {
                assert(spec_decode_tx(tx_views[i as int]) is None);
                assert(!(forall|j: int| 0 <= j < tx_views.len() ==> #[trigger] spec_decode_tx(tx_views[j]) is Some));
                assert(decoded_txs(tx_views) is None);
                return Err(ChainError::General(String::from_str("invalid transaction in block")));
            },
        };
        let ghost before = txs@;
        txs.push(tx);
        proof {
            assert forall|j: int| 0 <= j <= i implies block_tx_view(#[trigger] txs@[j]) == spec_decode_tx(
                tx_views[j],
            )->Some_0 by {
                if j < i {
                    assert(txs@[j] == before[j]);
                }
            }
        }
        i = i + 1;
    }
    Ok(BlockData { hash: decoded.hash, prev: decoded.prev, height, txs })
}

/// A block as bitcoind hands it over, in hexadecimal: refused where the text
/// is no hexadecimal, else read by `block_data`.
pub fn block_data_from_hex(text: &String) -> (r: Result<BlockData, ChainError>)
    ensures
        match hex_decoded(text@) {
            None => r matches Err(e) && e is General,
            Some(raw) => block_data_outcome(raw, r),
        },
{
    match hex_decode(text) {
        Some(raw) => block_data(&raw),
        None => Err(ChainError::General(String::from_str("invalid block hex"))),
    }
}

/// The address that paid output `vout` of a previous transaction, the
/// sender of an input that spends it. The transaction must decode, have that
/// output, and its script must encode an address on the network.
pub fn sender_address(prev_tx: &Vec<u8>, vout: u32, network: Network) -> (r: Result<String, ChainError>)
    ensures
        match spec_decode_tx(prev_tx@) {
            None => r matches Err(e) && e is General,
            Some((_, outputs, _)) => if vout >= outputs.len() {
                r matches Err(e) && e is General
            } else {
                match spec_address_from_script(outputs[vout as int].1, network) {
                    Some(a) => r matches Ok(s) && s@ == a,
                    None => r matches Err(e) && e is General,
                }
            },
        },
{
    let tx = match decode_tx(prev_tx) {
        Some(t) => t,
        None => {
            return Err(ChainError::General(String::from_str("invalid transaction")));
        },
    };
    if vout as usize >= tx.outputs.len() {
        return Err(ChainError::General(String::from_str("txin output does not exist")));
    }
    let out = &tx.outputs[vout as usize];
    assert(prevout_views(tx.outputs@)[vout as int].1 == out.script_pubkey@);
    match address_from_script(&out.script_pubkey, network) {
        Some(a) => Ok(a),
        None => Err(ChainError::General(String::from_str("output pays to no address"))),
    }
}

} // verus!
