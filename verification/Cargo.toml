[package]
name = "streamsync"
version = "0.1.0"
edition = "2021"
publish = false

[dependencies]
sha2 = "=0.10.9"
ahash = "=0.8.12"
flate2 = "=1.1.10"
uuid = { version = "=1.29.0", features = ["v4", "serde"] }
fastrand = "=2.5.0"
num_cpus = "=1.17.0"
rust_decimal = "=1.43.0"
serde = { version = "=1.0.229", features = ["derive"] }
serde_json = "=1.0.154"
bincode = "=1.3.3"
solana-sdk = { version = "=2.3.1", default-features = false }
spl-token = { version = "=9.0.0", default-features = false, features = ["no-entrypoint"] }
dashmap = "=6.2.1"
tokio = { version = "=1.54.1", features = ["rt-multi-thread", "sync", "time", "macros"] }
async-trait = "0.1"
thiserror = "2"
nng = "1"
