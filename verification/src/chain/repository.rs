use vstd::prelude::*;

use super::types::{OutPoint, Txid, Txo};

verus! {

/// Errors of the chain repository.
#[derive(Debug)]
pub enum ChainRepositoryError {
    MultipleTips,
    General(String),
}

/// An output paid to a watched address.
#[derive(Debug)]
pub struct AddressUtxo {
    pub address: String,
    pub utxo: Txo,
}

/// An output spent by an input of a transaction.
#[derive(Clone, Copy, Debug, PartialEq, Eq)]
pub struct SpentTxo {
    pub outpoint: OutPoint,
    pub spending_tx: Txid,
    pub spending_input_index: u32,
}

} // verus!
