[package]
name = "verifier-lib"
version = "0.1.0"
edition = "2021"
publish = false

[dependencies]
solana-bn254 = "*"
sha2 = "0.10"
acir = "*"
bincode = { version = "2", features = ["serde"] }
tracing = "0.1"
