pub mod privkey_provider;
pub mod random_provider;
pub mod swap_repository;
pub mod swap_service;
pub mod taproot;
pub mod claim_tx;
pub mod refund_tx;
pub mod payment_monitor;
