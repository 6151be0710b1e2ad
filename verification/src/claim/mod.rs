pub mod monitor;
pub mod repository;
pub mod service;
pub mod preimage_monitor;
