[package]
name = "tx_inspector"
version = "0.1.0"
edition = "2021"
publish = false

[dependencies]
serde_json = "1"
serde = { version = "1", features = ["derive"] }
bitcoincore-rpc = "0.19"
bitcoin = "0.32"
