[package]
name = "marketplace"
version = "0.1.0"
edition = "2021"
publish = false

[dependencies]
near-sdk = { version = "=5.1.0", features = ["legacy"] }
near-contract-standards = "=5.1.0"
