use vstd::prelude::*;

use super::repository::ChainRepositoryError;

verus! {

/// Errors of broadcasting a transaction.
#[derive(Debug)]
pub enum BroadcastError {
    Chain(ChainError),
    InsufficientFeeRejectingReplacement(String),
    UnknownError(String),
}

/// Errors of the chain client and of the in-memory chain.
#[derive(Debug)]
pub enum ChainError {
    Database(ChainRepositoryError),
    EmptyChain,
    InvalidChain,
    BlockNotFound,
    General(String),
}

} // verus!
