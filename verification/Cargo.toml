[package]
name = "passkeeper"
version = "0.1.0"
edition = "2021"
publish = false

[dependencies]
rust-crypto = "0.2.36"
rand = "0.3"
serde = { version = "1", features = ["derive"] }
serde_json = "1"
sodiumoxide = "0.2.7"
