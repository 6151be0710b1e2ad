use vstd::prelude::*;

verus! {

/// Byte-wise equality of two 32-byte arrays.
pub fn bytes32_eq(a: &[u8; 32], b: &[u8; 32]) -> (r: bool)
    ensures
        r == (*a == *b),
{
    broadcast use vstd::array::group_array_axioms;
    let mut i: usize = 0;
    while i < 32
        invariant
            0 <= i <= 32,
            forall|k: int| 0 <= k < i ==> a[k] == b[k],
        decreases 32 - i,
    {
        if a[i] != b[i] {
            assert(a[i as int] != b[i as int]);
            return false;
        }
        i = i + 1;
    }
    assert(*a =~= *b);
    true
}

/// Exactly 32 bytes as an array; `None` for any other length.
pub fn bytes32_from_slice(bytes: &Vec<u8>) -> (r: Option<[u8; 32]>)
    ensures
        match r {
            Some(a) => bytes@.len() == 32 && a@ == bytes@,
            None => bytes@.len() != 32,
        },
{
    if bytes.len() != 32 {
        return None;
    }
    let mut a = [0u8; 32];
    let mut i: usize = 0;
    while i < 32
        invariant
            0 <= i <= 32,
            bytes@.len() == 32,
            a@.len() == 32,
            forall|k: int| 0 <= k < i ==> a@[k] == bytes@[k],
        decreases 32 - i,
    {
        a[i] = bytes[i];
        i = i + 1;
    }
    assert(a@ =~= bytes@);
    Some(a)
}

/// A 32-byte block hash, in the byte order of its consensus encoding.
#[derive(Clone, Copy, Debug, PartialEq, Eq)]
pub struct BlockHash {
    pub bytes: [u8; 32],
}

impl BlockHash {
    pub fn from_bytes(bytes: [u8; 32]) -> (h: Self)
        ensures
            h.bytes == bytes,
    {
        BlockHash { bytes }
    }

    /// Byte-wise equality of two hashes.
    pub fn same_as(&self, other: &BlockHash) -> (r: bool)
        ensures
            r == (*self == *other),
    {
        bytes32_eq(&self.bytes, &other.bytes)
    }
}

/// The part of a block header that the chain follows: its own hash, its
/// height and the hash of the block before it.
#[derive(Clone, Copy, Debug, PartialEq, Eq)]
pub struct BlockHeader {
    pub hash: BlockHash,
    pub height: u64,
    pub prev: BlockHash,
}

impl BlockHeader {
    /// Field-wise equality of two headers.
    pub fn same_as(&self, other: &BlockHeader) -> (r: bool)
        ensures
            r == (*self == *other),
    {
        self.height == other.height && self.hash.same_as(&other.hash) && self.prev.same_as(
            &other.prev,
        )
    }
}

/// The bitcoin network whose address encoding is in use.
#[derive(Clone, Copy, Debug, PartialEq, Eq)]
pub enum Network {
    Bitcoin,
    Testnet,
    Testnet4,
    Signet,
    Regtest,
}

/// A 32-byte transaction id.
#[derive(Clone, Copy, Debug, PartialEq, Eq)]
pub struct Txid {
    pub bytes: [u8; 32],
}

impl Txid {
    pub fn same_as(&self, other: &Txid) -> (r: bool)
        ensures
            r == (*self == *other),
    {
        bytes32_eq(&self.bytes, &other.bytes)
    }
}

/// A reference to one output of a transaction.
#[derive(Clone, Copy, Debug, PartialEq, Eq)]
pub struct OutPoint {
    pub txid: Txid,
    pub vout: u32,
}

impl OutPoint {
    pub fn new(txid: Txid, vout: u32) -> (o: Self)
        ensures
            o.txid == txid,
            o.vout == vout,
    {
        OutPoint { txid, vout }
    }

    pub fn same_as(&self, other: &OutPoint) -> (r: bool)
        ensures
            r == (*self == *other),
    {
        self.vout == other.vout && self.txid.same_as(&other.txid)
    }
}

/// A transaction output: its value and the script that locks it.
#[derive(Debug, PartialEq, Eq)]
pub struct TxOut {
    pub value_sat: u64,
    pub script_pubkey: Vec<u8>,
}

impl Clone for TxOut {
    fn clone(&self) -> (c: Self)
        ensures
            c.value_sat == self.value_sat,
            c.script_pubkey@ == self.script_pubkey@,
    {
        let script_pubkey = self.script_pubkey.clone();
        proof {
            assert(script_pubkey@ =~= self.script_pubkey@);
        }
        TxOut { value_sat: self.value_sat, script_pubkey }
    }
}

/// A confirmed transaction output.
#[derive(Clone, Debug)]
pub struct Txo {
    pub block_hash: BlockHash,
    pub block_height: u64,
    pub outpoint: OutPoint,
    pub tx_out: TxOut,
}

/// Confirmations of an output at height `block_height` when the chain is at
/// `current_height`: the block itself counts as one, and the count
/// saturates at both ends.
pub open spec fn confirmations_at(block_height: u64, current_height: u64) -> u64 {
    let plus_one: int = if current_height == u64::MAX {
        u64::MAX as int
    } else {
        current_height + 1
    };
    if plus_one >= block_height {
        (plus_one - block_height) as u64
    } else {
        0
    }
}

impl Txo {
    pub fn confirmations(&self, current_height: u64) -> (c: u64)
        ensures
            c == confirmations_at(self.block_height, current_height),
    {
        current_height.saturating_add(1).saturating_sub(self.block_height)
    }
}

/// The spend of an output, where it was spent in a block.
#[derive(Clone, Debug)]
pub struct TxoSpend {
    pub spending_tx: Txid,
    pub spending_input_index: u32,
    pub block_hash: BlockHash,
    pub block_height: u64,
}

/// An output with its spend, if it was spent.
#[derive(Clone, Debug)]
pub struct TxoWithSpend {
    pub txo: Txo,
    pub spend: Option<TxoSpend>,
}

} // verus!
