use vstd::prelude::*;

use crate::chain::repository::ChainRepositoryError;
use crate::swap::swap_repository::GetSwapsError;
use crate::swap::swap_service::PaymentHash;

verus! {

/// A published redeem transaction.
pub struct Redeem {
    pub swap_hash: PaymentHash,
    /// Seconds since the unix epoch.
    pub creation_time: u64,
    /// The consensus encoding of the transaction.
    pub tx: Vec<u8>,
    pub destination_address: String,
    pub fee_per_kw: u32,
}

/// Errors of the redeem repository.
#[derive(Debug)]
pub enum RedeemRepositoryError {
    InvalidTimestamp,
    General(String),
}

/// Errors of listing redeemable outputs.
#[derive(Debug)]
pub enum RedeemServiceError {
    ChainRepository(ChainRepositoryError),
    GetSwaps(GetSwapsError),
}

/// Errors of redeeming outputs.
#[derive(Debug)]
pub enum RedeemError {
    General(String),
}

} // verus!
