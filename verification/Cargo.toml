[package]
name = "swapd"
version = "0.1.0"
edition = "2021"
publish = false

[dependencies]
bitcoin = "0.32"
lightning-invoice = "*"
regex = "1"
hex = "0.4"
serde = { version = "1", features = ["derive"] }
serde_json = "1"
tokio = { version = "1", features = ["macros", "rt-multi-thread", "time", "sync", "signal"] }
tokio-util = "0.7"
futures = "0.3"
async-trait = "0.1"
thiserror = "1"
tracing = "0.1"
tracing-subscriber = { version = "0.3", features = ["env-filter"] }
clap = { version = "4", features = ["derive"] }
reqwest = { version = "0.12", default-features = false, features = ["json"] }
secp256k1 = "*"
ring = "0.17"
