pub mod block_list;
pub mod client;
pub mod decode;
pub mod fee_estimator;
pub mod filter;
pub mod memchain;
pub mod monitor;
pub mod repository;
pub mod types;
pub mod whatthefee;
