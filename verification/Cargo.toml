[package]
name = "airdrop_contract"
version = "0.1.0"
edition = "2021"
publish = false

[dependencies]
serde_json = { version = "=1.0.151", features = ["preserve_order"] }
near-sdk = { version = "=5.29.1", features = ["non-contract-usage"] }
