[package]
name = "mintick"
version = "0.1.0"
edition = "2021"
publish = false

[dependencies]
near-sdk = "3"
near-contract-standards = "3"
serde = { version = "1", features = ["derive"] }
