use vstd::prelude::*;

use super::types::Txo;

verus! {

/// A service that removes blocklisted outputs from a list.
pub trait BlockListService {
    fn filter_blocklisted(&self, utxos: &[Txo]) -> Result<Vec<Txo>, String>;
}

/// The block list service of the server.
#[derive(Debug)]
pub struct BlockListImpl {}

impl BlockListImpl {
    pub fn new() -> (r: Self)
        ensures
            r == (BlockListImpl {}),
    {
        BlockListImpl {}
    }
}

} // verus!
