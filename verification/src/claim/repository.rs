use vstd::prelude::*;

use crate::chain::types::OutPoint;

verus! {

/// A published claim transaction.
pub struct Claim {
    /// Seconds since the unix epoch.
    pub creation_time: u64,
    /// The consensus encoding of the transaction.
    pub tx: Vec<u8>,
    /// The outputs that the transaction spends, in input order.
    pub inputs: Vec<OutPoint>,
    pub destination_address: String,
    pub fee_per_kw: u32,
    pub auto_bump: bool,
}

/// Errors of the claim repository.
#[derive(Debug)]
pub enum ClaimRepositoryError {
    InvalidTimestamp,
    General(String),
}

} // verus!
