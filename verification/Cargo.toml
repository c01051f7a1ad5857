[package]
name = "mintick_nft"
version = "0.1.0"
edition = "2021"
publish = false

[dependencies]
near-sdk = { version = "4", default-features = false }
near-contract-standards = "4"
serde = { version = "1", features = ["derive"] }
