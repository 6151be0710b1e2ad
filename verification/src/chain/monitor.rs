use vstd::prelude::*;

use super::client::ChainError;
use super::memchain::{
    has_hash, hash_index, lemma_hash_index_unique, lemma_lowest_known_range, lowest_known,
    valid_chain, Chain,
};
use super::repository::{AddressUtxo, SpentTxo};
use super::types::{BlockHash, BlockHeader, Network, OutPoint, Txid, TxOut, Txo};

verus! {

/// The address that the bitcoin crate gives an output script on `network`,
/// or `None` for a script that encodes no address.
pub uninterp spec fn spec_address_from_script(script: Seq<u8>, network: Network) -> Option<
    Seq<char>,
>;

/// Calls `bitcoin::Address::from_script` and renders the address with its
/// `Display`; an error of the crate becomes `None`. The result is named,
/// not stated: it is a function of the script and the network alone.
#[verifier::external_body]
pub(crate) fn address_from_script(script: &Vec<u8>, network: Network) -> (r: Option<String>)
    ensures
        match r {
            Some(a) => spec_address_from_script(script@, network) == Some(a@),
            None => spec_address_from_script(script@, network) is None,
        },
{
    let params = match network {
        Network::Bitcoin => bitcoin::Network::Bitcoin,
        Network::Testnet => bitcoin::Network::Testnet,
        Network::Testnet4 => bitcoin::Network::Testnet4,
        Network::Signet => bitcoin::Network::Signet,
        Network::Regtest => bitcoin::Network::Regtest,
    };
    match bitcoin::Address::from_script(bitcoin::Script::from_bytes(script.as_slice()), params) {
        Ok(address) => Some(address.to_string()),
        Err(_) => None,
    }
}

/// The next thing a chain sync does.
#[derive(Debug, PartialEq, Eq)]
pub enum SyncAction {
    /// Fetch the header with this hash and hand it to `sync_step`.
    FetchHeader(BlockHash),
    /// The new headers reach a block that the known chain holds.
    Done,
}

/// What follows once the new headers reach back to `header`.
pub open spec fn sync_action_after(existing: Seq<BlockHeader>, header: BlockHeader) -> SyncAction {
    if has_hash(existing, header.hash) {
        SyncAction::Done
    } else {
        SyncAction::FetchHeader(header.prev)
    }
}

/// Starts a sync from the header of the best block: the new chain holds
/// that block alone, and the walk back continues until a block of the known
/// chain is reached. The known chain may have been reorganised, so its tip
/// is not what is looked for.
pub fn sync_start(existing: &Chain, tip: BlockHeader) -> (r: (Chain, SyncAction))
    requires
        existing.wf(),
    ensures
        r.0.wf(),
        r.0@ == seq![tip],
        r.1 == sync_action_after(existing@, tip),
{
    let new_chain = Chain::new(tip);
    if existing.contains_block(&tip.hash) {
        (new_chain, SyncAction::Done)
    } else {
        (new_chain, SyncAction::FetchHeader(tip.prev))
    }
}

/// Puts a fetched header below the new chain and says what follows.
pub fn sync_step(existing: &Chain, new_chain: &mut Chain, fetched: BlockHeader) -> (r: Result<
    SyncAction,
    ChainError,
>)
    requires
        existing.wf(),
        old(new_chain).wf(),
    ensures
        final(new_chain).wf(),
        r is Err <==> (old(new_chain)@[0].prev != fetched.hash || has_hash(
            old(new_chain)@,
            fetched.hash,
        )),
        r is Err ==> r == Err::<SyncAction, ChainError>(ChainError::InvalidChain)
            && final(new_chain)@ == old(new_chain)@,
        r matches Ok(a) ==> final(new_chain)@ == seq![fetched] + old(new_chain)@ && a
            == sync_action_after(existing@, fetched),
{
    match new_chain.prepend(fetched) {
        Err(e) => Err(e),
        Ok(()) => {
            if existing.contains_block(&fetched.hash) {
                Ok(SyncAction::Done)
            } else {
                Ok(SyncAction::FetchHeader(fetched.prev))
            }
        },
    }
}

/// The hashes of the blocks of `existing` that a reorganisation removed:
/// walking down from the tip, every block up to the first one that the new
/// chain holds. Nothing was removed when the new chain starts at the tip.
pub open spec fn reorged_spec(existing: Seq<BlockHeader>, new_chain: Seq<BlockHeader>) -> Seq<
    BlockHash,
> {
    if new_chain[0] == existing.last() {
        Seq::empty()
    } else {
        let back = existing.reverse();
        back.subrange(0, lowest_known(new_chain, back, 0)).map_values(|b: BlockHeader| b.hash)
    }
}

/// The blocks to undo after a sync found the new chain, newest first.
pub fn reorged_blocks(existing: &Chain, new_chain: &Chain) -> (r: Vec<BlockHash>)
    requires
        existing.wf(),
        new_chain.wf(),
    ensures
        r@ == reorged_spec(existing@, new_chain@),
{
    let mut undo: Vec<BlockHash> = Vec::new();
    if new_chain.base().same_as(&existing.tip()) {
        proof {
            assert(undo@ =~= reorged_spec(existing@, new_chain@));
        }
        return undo;
    }
    let back = existing.iter_backwards();
    let ghost b = back@;
    let ghost stop = lowest_known(new_chain@, b, 0);
    proof {
        lemma_lowest_known_range(new_chain@, b, 0);
    }
    let mut i: usize = 0;
    while i < back.len()
        invariant
            back@ == b,
            b == existing@.reverse(),
            0 <= i <= b.len(),
            i <= stop <= b.len(),
            stop == lowest_known(new_chain@, b, 0),
            lowest_known(new_chain@, b, 0) == lowest_known(new_chain@, b, i as int),
            undo@ =~= b.subrange(0, i as int).map_values(|h: BlockHeader| h.hash),
        ensures
            i == stop,
            undo@ =~= b.subrange(0, i as int).map_values(|h: BlockHeader| h.hash),
        decreases b.len() - i,
    {
        if new_chain.contains_block(&back[i].hash) {
            proof {
                assert(stop == i);
            }
            break ;
        }
        undo.push(back[i].hash);
        proof {
            lemma_lowest_known_range(new_chain@, b, i as int + 1);
        }
        i = i + 1;
    }
    undo
}

/// The walk back of a sync keeps every block of the new chain unknown to the
/// known chain until it reaches a known block, which becomes the base: the
/// chain it finds reaches the known chain at its base only.
pub proof fn law_sync_step_keeps_shape(
    existing: Seq<BlockHeader>,
    found: Seq<BlockHeader>,
    fetched: BlockHeader,
)
    requires
        forall|i: int| 0 <= i < found.len() ==> !has_hash(existing, #[trigger] found[i].hash),
    ensures
        sync_action_after(existing, fetched) == SyncAction::Done ==> {
            let next = seq![fetched] + found;
            &&& has_hash(existing, next[0].hash)
            &&& forall|i: int| 0 < i < next.len() ==> !has_hash(existing, #[trigger] next[i].hash)
        },
        sync_action_after(existing, fetched) != SyncAction::Done ==> {
            let next = seq![fetched] + found;
            forall|i: int| 0 <= i < next.len() ==> !has_hash(existing, #[trigger] next[i].hash)
        },
{
    let next = seq![fetched] + found;
    assert forall|i: int| 0 < i < next.len() implies !has_hash(existing, #[trigger] next[i].hash) by {
        assert(next[i] == found[i - 1]);
    }
}

/// The blocks that a sync undoes are exactly the blocks that retipping the
/// known chain onto the found chain removes, newest first: those above the
/// block where the found chain starts.
pub proof fn law_reorged_are_retip_removed(existing: Seq<BlockHeader>, found: Seq<BlockHeader>)
    requires
        valid_chain(existing),
        valid_chain(found),
        has_hash(existing, found[0].hash),
        forall|i: int| 0 < i < found.len() ==> !has_hash(existing, #[trigger] found[i].hash),
    ensures
        reorged_spec(existing, found) == existing.subrange(
            hash_index(existing, found[0].hash) + 1,
            existing.len() as int,
        ).reverse().map_values(|b: BlockHeader| b.hash),
{
    let n = existing.len() as int;
    let k = hash_index(existing, found[0].hash);
    assert(0 <= k < n && existing[k].hash == found[0].hash);
    let back = existing.reverse();
    let t = n - 1 - k;
    assert forall|i: int| 0 <= i < t implies !has_hash(found, #[trigger] back[i].hash) by {
        assert(back[i] == existing[n - 1 - i]);
        if has_hash(found, back[i].hash) {
            let m = choose|m: int| 0 <= m < found.len() && #[trigger] found[m].hash == back[i].hash;
            if m == 0 {
                assert(existing[n - 1 - i].hash == existing[k].hash);
            } else {
                assert(has_hash(existing, found[m].hash));
            }
        }
    }
    assert(back[t] == existing[k]);
    assert(found[0].hash == back[t].hash);
    assert(has_hash(found, back[t].hash));
    lemma_lowest_known_first(found, back, 0, t);
    let removed = existing.subrange(k + 1, n).reverse().map_values(|b: BlockHeader| b.hash);
    if found[0] == existing.last() {
        lemma_hash_index_unique(existing, n - 1);
        assert(removed =~= Seq::<BlockHash>::empty());
    } else {
        assert(back.subrange(0, t).map_values(|b: BlockHeader| b.hash) =~= removed);
    }
}

proof fn lemma_lowest_known_first(s: Seq<BlockHeader>, o: Seq<BlockHeader>, m: int, t: int)
    requires
        0 <= m <= t < o.len(),
        forall|i: int| m <= i < t ==> !has_hash(s, #[trigger] o[i].hash),
        has_hash(s, o[t].hash),
    ensures
        lowest_known(s, o, m) == t,
    decreases t - m,
{
    if m < t {
        lemma_lowest_known_first(s, o, m + 1, t);
    }
}

/// A transaction of a block, reduced to what the chain follower reads.
pub struct BlockTx {
    pub txid: Txid,
    pub outputs: Vec<TxOut>,
    /// The outputs that the inputs spend, in input order.
    pub inputs: Vec<OutPoint>,
}

/// A block, reduced to what the chain follower reads.
pub struct BlockData {
    pub hash: BlockHash,
    pub prev: BlockHash,
    pub height: u64,
    pub txs: Vec<BlockTx>,
}

/// An output of a block that pays to an address.
pub struct AddressOutput {
    pub address: String,
    pub outpoint: OutPoint,
    pub tx_out: TxOut,
}

/// The addresses, address outputs and spent outputs of a block.
pub struct BlockContents {
    pub addresses: Vec<String>,
    pub outputs: Vec<AddressOutput>,
    pub spent: Vec<SpentTxo>,
}

/// An address output, as plain values.
pub struct AddressOutputView {
    pub address: Seq<char>,
    pub outpoint: OutPoint,
    pub value_sat: u64,
    pub script_pubkey: Seq<u8>,
}

impl View for AddressOutput {
    type V = AddressOutputView;

    open spec fn view(&self) -> AddressOutputView {
        AddressOutputView {
            address: self.address@,
            outpoint: self.outpoint,
            value_sat: self.tx_out.value_sat,
            script_pubkey: self.tx_out.script_pubkey@,
        }
    }
}

/// The address outputs of transaction `tx` among its first `n` outputs, in
/// output order, given the address that each output's script encodes:
/// outputs without an address are skipped.
pub open spec fn tx_address_outputs_from(tx: BlockTx, addresses: Seq<Option<Seq<char>>>, n: int) -> Seq<
    AddressOutputView,
>
    decreases n,
{
    if n <= 0 {
        Seq::empty()
    } else {
        let prev = tx_address_outputs_from(tx, addresses, n - 1);
        let out = tx.outputs@[n - 1];
        match addresses[n - 1] {
            Some(a) => prev.push(
                AddressOutputView {
                    address: a,
                    outpoint: OutPoint { txid: tx.txid, vout: (n - 1) as u32 },
                    value_sat: out.value_sat,
                    script_pubkey: out.script_pubkey@,
                },
            ),
            None => prev,
        }
    }
}

/// The address that each output script of `tx` encodes on `network`.
pub open spec fn script_addresses(tx: BlockTx, network: Network) -> Seq<Option<Seq<char>>> {
    Seq::new(
        tx.outputs@.len(),
        |v: int| spec_address_from_script(tx.outputs@[v].script_pubkey@, network),
    )
}

/// The address outputs of transaction `tx` on `network`, in output order.
pub open spec fn tx_address_outputs(tx: BlockTx, network: Network, n: int) -> Seq<AddressOutputView> {
    tx_address_outputs_from(tx, script_addresses(tx, network), n)
}

/// Optional addresses as plain values.
pub open spec fn address_views(row: Seq<Option<String>>) -> Seq<Option<Seq<char>>> {
    row.map_values(
        |a: Option<String>|
            match a {
                Some(s) => Some(s@),
                None => None,
            },
    )
}

/// A table of optional addresses, one row per transaction, as plain values.
pub open spec fn address_table_views(table: Seq<Vec<Option<String>>>) -> Seq<Seq<Option<Seq<char>>>> {
    table.map_values(|row: Vec<Option<String>>| address_views(row@))
}

/// The addresses that the output scripts of a block encode on `network`,
/// one row per transaction.
pub open spec fn block_script_addresses(txs: Seq<BlockTx>, network: Network) -> Seq<
    Seq<Option<Seq<char>>>,
> {
    Seq::new(txs.len(), |t: int| script_addresses(txs[t], network))
}

/// The outputs that transaction `tx` spends, as spent outputs, in input order.
pub open spec fn tx_spent(tx: BlockTx) -> Seq<SpentTxo> {
    Seq::new(
        tx.inputs@.len(),
        |k: int|
            SpentTxo { outpoint: tx.inputs@[k], spending_tx: tx.txid, spending_input_index: k as u32 },
    )
}

/// The address outputs of the first `n` transactions, in block order,
/// given the addresses of their outputs.
pub open spec fn block_address_outputs_from(
    txs: Seq<BlockTx>,
    table: Seq<Seq<Option<Seq<char>>>>,
    n: int,
) -> Seq<AddressOutputView>
    decreases n,
{
    if n <= 0 {
        Seq::empty()
    } else {
        block_address_outputs_from(txs, table, n - 1) + tx_address_outputs_from(
            txs[n - 1],
            table[n - 1],
            txs[n - 1].outputs@.len() as int,
        )
    }
}

/// The address output that output `v` of `tx` is, paid to `address`.
pub open spec fn output_view(tx: BlockTx, address: Seq<char>, v: int) -> AddressOutputView {
    AddressOutputView {
        address,
        outpoint: OutPoint { txid: tx.txid, vout: v as u32 },
        value_sat: tx.outputs@[v].value_sat,
        script_pubkey: tx.outputs@[v].script_pubkey@,
    }
}

/// How many of the first `n` outputs have an address.
pub open spec fn address_count(addresses: Seq<Option<Seq<char>>>, n: int) -> nat
    decreases n,
{
    if n <= 0 {
        0
    } else {
        address_count(addresses, n - 1) + if addresses[n - 1] is Some {
            1nat
        } else {
            0nat
        }
    }
}

/// How many outputs of the first `n` transactions have an address.
pub open spec fn block_address_count(txs: Seq<BlockTx>, table: Seq<Seq<Option<Seq<char>>>>, n: int) -> nat
    decreases n,
{
    if n <= 0 {
        0
    } else {
        block_address_count(txs, table, n - 1) + address_count(table[n - 1], txs[n - 1].outputs@.len() as int)
    }
}

/// The address outputs of a transaction are exactly its outputs that have
/// an address: each of them once, with its outpoint, value and script, and
/// nothing else.
pub proof fn law_tx_address_outputs(tx: BlockTx, addresses: Seq<Option<Seq<char>>>, n: int)
    requires
        0 <= n,
    ensures
        forall|v: int|
            0 <= v < n && (#[trigger] addresses[v]) is Some ==> tx_address_outputs_from(tx, addresses, n).contains(
                output_view(tx, addresses[v]->0, v),
            ),
        forall|i: int|
            0 <= i < tx_address_outputs_from(tx, addresses, n).len() ==> exists|v: int|
                0 <= v < n && #[trigger] addresses[v] == Some(
                    (#[trigger] tx_address_outputs_from(tx, addresses, n)[i]).address,
                ) && tx_address_outputs_from(tx, addresses, n)[i] == output_view(
                    tx,
                    tx_address_outputs_from(tx, addresses, n)[i].address,
                    v,
                ),
        tx_address_outputs_from(tx, addresses, n).len() == address_count(addresses, n),
    decreases n,
{
    if n > 0 {
        law_tx_address_outputs(tx, addresses, n - 1);
        let prev = tx_address_outputs_from(tx, addresses, n - 1);
        let res = tx_address_outputs_from(tx, addresses, n);
        assert forall|v: int|
            0 <= v < n && (#[trigger] addresses[v]) is Some implies res.contains(
                output_view(tx, addresses[v]->0, v),
            ) by {
            if v < n - 1 {
                let e = output_view(tx, addresses[v]->0, v);
                assert(prev.contains(e));
                let i = choose|i: int| 0 <= i < prev.len() && prev[i] == e;
                assert(res[i] == e);
            } else {
                assert(res[res.len() - 1] == output_view(tx, addresses[v]->0, v));
            }
        }
        assert forall|i: int| 0 <= i < res.len() implies exists|v: int|
            0 <= v < n && #[trigger] addresses[v] == Some((#[trigger] res[i]).address) && res[i]
                == output_view(tx, res[i].address, v) by {
            if i < prev.len() {
                assert(res[i] == prev[i]);
                let v = choose|v: int|
                    0 <= v < n - 1 && #[trigger] addresses[v] == Some((#[trigger] prev[i]).address)
                        && prev[i] == output_view(tx, prev[i].address, v);
                assert(addresses[v] == Some(res[i].address));
            } else {
                assert(addresses[n - 1] == Some(res[i].address));
            }
        }
    }
}

/// The address outputs of a block are exactly the outputs of its
/// transactions that have an address: every such output of every
/// transaction, with its outpoint, value and script, and nothing else, as
/// many as there are.
pub proof fn law_block_address_outputs(txs: Seq<BlockTx>, table: Seq<Seq<Option<Seq<char>>>>, n: int)
    requires
        0 <= n <= txs.len(),
    ensures
        forall|t: int, v: int|
            0 <= t < n && 0 <= v < txs[t].outputs@.len() && (#[trigger] table[t][v]) is Some
                ==> block_address_outputs_from(txs, table, n).contains(
                output_view(txs[t], table[t][v]->0, v),
            ),
        forall|i: int|
            0 <= i < block_address_outputs_from(txs, table, n).len() ==> exists|t: int, v: int|
                0 <= t < n && 0 <= v < txs[t].outputs@.len() && #[trigger] table[t][v] == Some(
                    (#[trigger] block_address_outputs_from(txs, table, n)[i]).address,
                ) && block_address_outputs_from(txs, table, n)[i] == output_view(
                    txs[t],
                    block_address_outputs_from(txs, table, n)[i].address,
                    v,
                ),
        block_address_outputs_from(txs, table, n).len() == block_address_count(txs, table, n),
    decreases n,
{
    if n > 0 {
        law_block_address_outputs(txs, table, n - 1);
        let last = txs[n - 1];
        let len = last.outputs@.len() as int;
        law_tx_address_outputs(last, table[n - 1], len);
        let prev = block_address_outputs_from(txs, table, n - 1);
        let here = tx_address_outputs_from(last, table[n - 1], len);
        let res = block_address_outputs_from(txs, table, n);
        assert(res == prev + here);
        assert forall|t: int, v: int|
            0 <= t < n && 0 <= v < txs[t].outputs@.len() && (#[trigger] table[t][v]) is Some
                implies res.contains(output_view(txs[t], table[t][v]->0, v)) by {
            let e = output_view(txs[t], table[t][v]->0, v);
            if t < n - 1 {
                assert(prev.contains(e));
                let i = choose|i: int| 0 <= i < prev.len() && prev[i] == e;
                assert(res[i] == e);
            } else {
                assert(table[n - 1][v] is Some);
                assert(here.contains(e));
                let i = choose|i: int| 0 <= i < here.len() && here[i] == e;
                assert(res[prev.len() + i] == e);
            }
        }
        assert forall|i: int| 0 <= i < res.len() implies exists|t: int, v: int|
            0 <= t < n && 0 <= v < txs[t].outputs@.len() && #[trigger] table[t][v] == Some(
                (#[trigger] res[i]).address,
            ) && res[i] == output_view(txs[t], res[i].address, v) by {
            if i < prev.len() {
                assert(res[i] == prev[i]);
                let (t, v) = choose|t: int, v: int|
                    0 <= t < n - 1 && 0 <= v < txs[t].outputs@.len() && #[trigger] table[t][v] == Some(
                        (#[trigger] prev[i]).address,
                    ) && prev[i] == output_view(txs[t], prev[i].address, v);
                assert(table[t][v] == Some(res[i].address));
            } else {
                let j = i - prev.len();
                assert(res[i] == here[j]);
                let v = choose|v: int|
                    0 <= v < len && #[trigger] table[n - 1][v] == Some((#[trigger] here[j]).address)
                        && here[j] == output_view(last, here[j].address, v);
                assert(table[n - 1][v] == Some(res[i].address));
            }
        }
    }
}

/// Reading a block on a network sees every output of every transaction
/// whose script encodes an address on that network, with that address, and
/// nothing else.
pub proof fn law_block_sees_every_address_output(txs: Seq<BlockTx>, network: Network)
    ensures
        forall|t: int, v: int|
            0 <= t < txs.len() && 0 <= v < txs[t].outputs@.len() && (#[trigger] spec_address_from_script(
                txs[t].outputs@[v].script_pubkey@,
                network,
            )) is Some ==> block_address_outputs(txs, network, txs.len() as int).contains(
                output_view(
                    txs[t],
                    spec_address_from_script(txs[t].outputs@[v].script_pubkey@, network)->0,
                    v,
                ),
            ),
        forall|i: int|
            0 <= i < block_address_outputs(txs, network, txs.len() as int).len() ==> exists|t: int, v: int|
                0 <= t < txs.len() && 0 <= v < txs[t].outputs@.len() && #[trigger] spec_address_from_script(
                    txs[t].outputs@[v].script_pubkey@,
                    network,
                ) == Some((#[trigger] block_address_outputs(txs, network, txs.len() as int)[i]).address)
                    && block_address_outputs(txs, network, txs.len() as int)[i] == output_view(
                    txs[t],
                    block_address_outputs(txs, network, txs.len() as int)[i].address,
                    v,
                ),
{
    let table = block_script_addresses(txs, network);
    law_block_address_outputs(txs, table, txs.len() as int);
    assert forall|t: int, v: int|
        0 <= t < txs.len() && 0 <= v < txs[t].outputs@.len() implies #[trigger] table[t][v]
            == spec_address_from_script(txs[t].outputs@[v].script_pubkey@, network) by {}
    let res = block_address_outputs(txs, network, txs.len() as int);
    assert forall|t: int, v: int|
        0 <= t < txs.len() && 0 <= v < txs[t].outputs@.len() && (#[trigger] spec_address_from_script(
            txs[t].outputs@[v].script_pubkey@,
            network,
        )) is Some implies res.contains(
            output_view(txs[t], spec_address_from_script(txs[t].outputs@[v].script_pubkey@, network)->0, v),
        ) by {
        assert(table[t][v] == spec_address_from_script(txs[t].outputs@[v].script_pubkey@, network));
    }
    assert forall|i: int| 0 <= i < res.len() implies exists|t: int, v: int|
        0 <= t < txs.len() && 0 <= v < txs[t].outputs@.len() && #[trigger] spec_address_from_script(
            txs[t].outputs@[v].script_pubkey@,
            network,
        ) == Some((#[trigger] res[i]).address) && res[i] == output_view(txs[t], res[i].address, v) by {
        let (t, v) = choose|t: int, v: int|
            0 <= t < txs.len() && 0 <= v < txs[t].outputs@.len() && #[trigger] table[t][v] == Some(
                (#[trigger] res[i]).address,
            ) && res[i] == output_view(txs[t], res[i].address, v);
        assert(table[t][v] == spec_address_from_script(txs[t].outputs@[v].script_pubkey@, network));
    }
}

/// The address outputs of the first `n` transactions on `network`.
pub open spec fn block_address_outputs(txs: Seq<BlockTx>, network: Network, n: int) -> Seq<
    AddressOutputView,
> {
    block_address_outputs_from(txs, block_script_addresses(txs, network), n)
}

/// The spent outputs of the first `n` transactions, in block order.
pub open spec fn block_spent(txs: Seq<BlockTx>, n: int) -> Seq<SpentTxo>
    decreases n,
{
    if n <= 0 {
        Seq::empty()
    } else {
        block_spent(txs, n - 1) + tx_spent(txs[n - 1])
    }
}

/// Every transaction has fewer than 2^32 outputs and inputs, so that the
/// output and input indices fit in 32 bits.
pub open spec fn block_indices_fit(txs: Seq<BlockTx>) -> bool {
    forall|t: int|
        0 <= t < txs.len() ==> #[trigger] txs[t].outputs@.len() <= u32::MAX + 1
            && txs[t].inputs@.len() <= u32::MAX + 1
}

/// The address that each output script of a transaction encodes, found
/// with the bitcoin crate.
pub fn script_addresses_of(tx: &BlockTx, network: Network) -> (r: Vec<Option<String>>)
    ensures
        address_views(r@) == script_addresses(*tx, network),
{
    let mut r: Vec<Option<String>> = Vec::new();
    let mut v: usize = 0;
    while v < tx.outputs.len()
        invariant
            v <= tx.outputs@.len(),
            r@.len() == v,
            forall|k: int| 0 <= k < v ==> address_views(r@)[k] == script_addresses(*tx, network)[k],
        decreases tx.outputs@.len() - v,
    {
        let a = address_from_script(&tx.outputs[v].script_pubkey, network);
        let ghost before = r@;
        r.push(a);
        proof {
            assert forall|k: int| 0 <= k < v + 1 implies address_views(r@)[k] == script_addresses(
                *tx,
                network,
            )[k] by {
                if k < v {
                    assert(r@[k] == before[k]);
                }
            }
        }
        v = v + 1;
    }
    assert(address_views(r@) =~= script_addresses(*tx, network));
    r
}

/// Reads a block, given the address that each output's script encodes: the
/// address outputs with their addresses, and every output that an input
/// spends.
pub fn block_contents_from(block: &BlockData, addresses: &Vec<Vec<Option<String>>>) -> (r:
    BlockContents)
    requires
        block_indices_fit(block.txs@),
        addresses@.len() == block.txs@.len(),
        forall|t: int| 0 <= t < addresses@.len() ==> (#[trigger] addresses@[t])@.len() == block.txs@[t].outputs@.len(),
    ensures
        r.outputs@.map_values(|o: AddressOutput| o@) == block_address_outputs_from(
            block.txs@,
            address_table_views(addresses@),
            block.txs@.len() as int,
        ),
        r.addresses@.len() == r.outputs@.len(),
        forall|k: int| 0 <= k < r.addresses@.len() ==> #[trigger] r.addresses@[k]@ == r.outputs@[k].address@,
        r.spent@ == block_spent(block.txs@, block.txs@.len() as int),
{
    let ghost table = address_table_views(addresses@);
    let mut found: Vec<String> = Vec::new();
    let mut outputs: Vec<AddressOutput> = Vec::new();
    let mut spent: Vec<SpentTxo> = Vec::new();
    let mut t: usize = 0;
    while t < block.txs.len()
        invariant
            t <= block.txs@.len(),
            block_indices_fit(block.txs@),
            table == address_table_views(addresses@),
            addresses@.len() == block.txs@.len(),
            forall|t2: int| 0 <= t2 < addresses@.len() ==> (#[trigger] addresses@[t2])@.len() == block.txs@[t2].outputs@.len(),
            outputs@.map_values(|o: AddressOutput| o@) == block_address_outputs_from(
                block.txs@,
                table,
                t as int,
            ),
            found@.len() == outputs@.len(),
            forall|k: int| 0 <= k < found@.len() ==> #[trigger] found@[k]@ == outputs@[k].address@,
            spent@ == block_spent(block.txs@, t as int),
        decreases block.txs@.len() - t,
    {
        let tx = &block.txs[t];
        let row = &addresses[t];
        let ghost before_outputs = outputs@.map_values(|o: AddressOutput| o@);
        let ghost before_len = outputs@.len();
        let mut vout: usize = 0;
        while vout < tx.outputs.len()
            invariant
                tx == block.txs@[t as int],
                row == addresses@[t as int],
                row@.len() == tx.outputs@.len(),
                table[t as int] == address_views(row@),
                tx.outputs@.len() <= u32::MAX + 1,
                vout <= tx.outputs@.len(),
                before_len <= outputs@.len(),
                outputs@.map_values(|o: AddressOutput| o@) == before_outputs
                    + tx_address_outputs_from(*tx, table[t as int], vout as int),
                before_outputs.len() == before_len,
                found@.len() == outputs@.len(),
                forall|k: int| 0 <= k < found@.len() ==> #[trigger] found@[k]@ == outputs@[k].address@,
            decreases tx.outputs@.len() - vout,
        {
            let output = &tx.outputs[vout];
            let ghost prev_view = outputs@.map_values(|o: AddressOutput| o@);
            match &row[vout] {
                Some(address) => {
                    let tx_out = output.clone();
                    found.push(address.clone());
                    outputs.push(
                        AddressOutput {
                            address: address.clone(),
                            outpoint: OutPoint::new(tx.txid, vout as u32),
                            tx_out,
                        },
                    );
                    proof {
                        assert(address_views(row@)[vout as int] == Some(address@));
                        assert(outputs@.map_values(|o: AddressOutput| o@) =~= prev_view.push(
                            outputs@.last()@,
                        ));
                        assert(outputs@.last()@ == AddressOutputView {
                            address: address@,
                            outpoint: OutPoint { txid: tx.txid, vout: vout as u32 },
                            value_sat: output.value_sat,
                            script_pubkey: output.script_pubkey@,
                        });
                    }
                },
                None => {
                    proof {
                        assert(address_views(row@)[vout as int] is None);
                    }
                },
            }
            vout = vout + 1;
        }
        let ghost before_spent = spent@;
        let mut vin: usize = 0;
        while vin < tx.inputs.len()
            invariant
                tx == block.txs@[t as int],
                tx.inputs@.len() <= u32::MAX + 1,
                vin <= tx.inputs@.len(),
                spent@ == before_spent + tx_spent(*tx).subrange(0, vin as int),
            decreases tx.inputs@.len() - vin,
        {
            spent.push(
                SpentTxo {
                    spending_tx: tx.txid,
                    spending_input_index: vin as u32,
                    outpoint: tx.inputs[vin],
                },
            );
            proof {
                assert(spent@ =~= before_spent + tx_spent(*tx).subrange(0, vin + 1));
            }
            vin = vin + 1;
        }
        proof {
            assert(tx_spent(*tx).subrange(0, tx.inputs@.len() as int) =~= tx_spent(*tx));
        }
        t = t + 1;
    }
    BlockContents { addresses: found, outputs, spent }
}

/// Reads a block: the address of every output whose script encodes one,
/// with the output, and every output that an input spends.
pub fn block_contents(block: &BlockData, network: Network) -> (r: BlockContents)
    requires
        block_indices_fit(block.txs@),
    ensures
        r.outputs@.map_values(|o: AddressOutput| o@) == block_address_outputs(
            block.txs@,
            network,
            block.txs@.len() as int,
        ),
        r.addresses@.len() == r.outputs@.len(),
        forall|k: int| 0 <= k < r.addresses@.len() ==> #[trigger] r.addresses@[k]@ == r.outputs@[k].address@,
        r.spent@ == block_spent(block.txs@, block.txs@.len() as int),
{
    let mut table: Vec<Vec<Option<String>>> = Vec::new();
    let mut t: usize = 0;
    while t < block.txs.len()
        invariant
            t <= block.txs@.len(),
            table@.len() == t,
            forall|k: int| 0 <= k < t ==> address_views((#[trigger] table@[k])@) == script_addresses(block.txs@[k], network),
        decreases block.txs@.len() - t,
    {
        let row = script_addresses_of(&block.txs[t], network);
        let ghost before = table@;
        table.push(row);
        proof {
            assert forall|k: int| 0 <= k < t + 1 implies address_views((#[trigger] table@[k])@)
                == script_addresses(block.txs@[k], network) by {
                if k < t {
                    assert(table@[k] == before[k]);
                }
            }
        }
        t = t + 1;
    }
    proof {
        assert(address_table_views(table@) =~= block_script_addresses(block.txs@, network));
        assert forall|k: int| 0 <= k < table@.len() implies (#[trigger] table@[k])@.len()
            == block.txs@[k].outputs@.len() by {
            assert(address_views(table@[k]@).len() == script_addresses(block.txs@[k], network).len());
        }
    }
    block_contents_from(block, &table)
}

/// A watched output, as plain values.
pub struct AddressUtxoView {
    pub address: Seq<char>,
    pub block_hash: BlockHash,
    pub block_height: u64,
    pub outpoint: OutPoint,
    pub value_sat: u64,
    pub script_pubkey: Seq<u8>,
}

impl View for AddressUtxo {
    type V = AddressUtxoView;

    open spec fn view(&self) -> AddressUtxoView {
        AddressUtxoView {
            address: self.address@,
            block_hash: self.utxo.block_hash,
            block_height: self.utxo.block_height,
            outpoint: self.utxo.outpoint,
            value_sat: self.utxo.tx_out.value_sat,
            script_pubkey: self.utxo.tx_out.script_pubkey@,
        }
    }
}

/// The address outputs of a block paid to one watched address, as
/// confirmed outputs of that block, in block order.
pub open spec fn watched_for(
    outputs: Seq<AddressOutputView>,
    address: Seq<char>,
    block_hash: BlockHash,
    block_height: u64,
) -> Seq<AddressUtxoView>
    decreases outputs.len(),
{
    if outputs.len() == 0 {
        Seq::empty()
    } else {
        let prev = watched_for(outputs.drop_last(), address, block_hash, block_height);
        let o = outputs.last();
        if o.address == address {
            prev.push(
                AddressUtxoView {
                    address,
                    block_hash,
                    block_height,
                    outpoint: o.outpoint,
                    value_sat: o.value_sat,
                    script_pubkey: o.script_pubkey,
                },
            )
        } else {
            prev
        }
    }
}

/// The watched outputs for the first `n` watched addresses, address by address.
pub open spec fn watched_outputs(
    outputs: Seq<AddressOutputView>,
    watch: Seq<Seq<char>>,
    block_hash: BlockHash,
    block_height: u64,
    n: int,
) -> Seq<AddressUtxoView>
    decreases n,
{
    if n <= 0 {
        Seq::empty()
    } else {
        watched_outputs(outputs, watch, block_hash, block_height, n - 1) + watched_for(
            outputs,
            watch[n - 1],
            block_hash,
            block_height,
        )
    }
}

/// The outputs of a block paid to the watched addresses, for each watched
/// address in turn, each as a confirmed output of the block.
pub fn watched_utxos(
    outputs: &Vec<AddressOutput>,
    watch_addresses: &Vec<String>,
    block_hash: BlockHash,
    block_height: u64,
) -> (r: Vec<AddressUtxo>)
    ensures
        r@.map_values(|u: AddressUtxo| u@) == watched_outputs(
            outputs@.map_values(|o: AddressOutput| o@),
            watch_addresses@.map_values(|a: String| a@),
            block_hash,
            block_height,
            watch_addresses@.len() as int,
        ),
{
    let ghost ov = outputs@.map_values(|o: AddressOutput| o@);
    let ghost wv = watch_addresses@.map_values(|a: String| a@);
    let mut result: Vec<AddressUtxo> = Vec::new();
    let mut w: usize = 0;
    while w < watch_addresses.len()
        invariant
            w <= watch_addresses@.len(),
            ov == outputs@.map_values(|o: AddressOutput| o@),
            wv == watch_addresses@.map_values(|a: String| a@),
            result@.map_values(|u: AddressUtxo| u@) == watched_outputs(
                ov,
                wv,
                block_hash,
                block_height,
                w as int,
            ),
        decreases watch_addresses@.len() - w,
    {
        let address = &watch_addresses[w];
        let ghost before = result@.map_values(|u: AddressUtxo| u@);
        let mut k: usize = 0;
        while k < outputs.len()
            invariant
                k <= outputs@.len(),
                ov == outputs@.map_values(|o: AddressOutput| o@),
                address@ == wv[w as int],
                w < wv.len(),
                result@.map_values(|u: AddressUtxo| u@) == before + watched_for(
                    ov.subrange(0, k as int),
                    address@,
                    block_hash,
                    block_height,
                ),
            decreases outputs@.len() - k,
        {
            let ghost prev = result@.map_values(|u: AddressUtxo| u@);
            proof {
                assert(ov.subrange(0, k + 1).drop_last() =~= ov.subrange(0, k as int));
                assert(ov.subrange(0, k + 1).last() == outputs@[k as int]@);
            }
            if outputs[k].address == *address {
                let tx_out = outputs[k].tx_out.clone();
                result.push(
                    AddressUtxo {
                        address: address.clone(),
                        utxo: Txo {
                            block_hash,
                            block_height,
                            outpoint: outputs[k].outpoint,
                            tx_out,
                        },
                    },
                );
                proof {
                    assert(result@.map_values(|u: AddressUtxo| u@) =~= prev.push(result@.last()@));
                }
            }
            k = k + 1;
        }
        proof {
            assert(ov.subrange(0, outputs@.len() as int) =~= ov);
            assert(wv.subrange(0, w as int) =~= wv.subrange(0, w + 1).drop_last());
        }
        w = w + 1;
    }
    result
}

} // verus!
