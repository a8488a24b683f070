[package]
name = "ledger_tx"
version = "0.1.0"
edition = "2021"
publish = false

[dependencies]
bs58 = "*"
ring = "*"
serde = { version = "1", features = ["derive"] }
