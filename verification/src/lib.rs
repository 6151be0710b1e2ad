//! Verified core of a lightning-to-onchain swap daemon: the in-memory block
//! chain that follows the best chain, the swap scripts, taproot addresses
//! and signed claim transactions, the decisions of the chain, claim, payout and refund
//! services, the steps of payments over lnd and cln, the lock rules of the
//! swap store, and the arithmetic of fees and timelocks.

pub mod chain;
pub mod swap;
pub mod claim;
pub mod lightning;
pub mod public_server;
pub mod internal_server;
pub mod bitcoind;
pub mod redeem;
pub mod lnd;
pub mod cln;
pub mod postgresql;
pub mod hex_text;
