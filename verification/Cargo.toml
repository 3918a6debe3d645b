[package]
name = "taproot_wallet"
version = "0.1.0"
edition = "2021"
publish = false

[dependencies]
bitcoin = { version = "0.30", features = ["serde", "rand-std", "bitcoinconsensus"] }
secp256k1-zkp = "0.9"
rand = "0.8"
electrum-client = "0.18"
sqlx = { version = "0.7", default-features = false, features = ["runtime-tokio", "sqlite", "migrate"] }
tokio = { version = "1", features = ["rt", "macros"] }
clap = { version = "4", features = ["derive"] }
serde = { version = "1", features = ["derive"] }
serde_json = "1"
