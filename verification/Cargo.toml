[package]
name = "ledger_vm"
version = "0.1.0"
edition = "2021"
publish = false

[dependencies]
anyhow = "1"
bincode = "1"
indexmap = "2"
lru = "*"
parking_lot = "0.12"
rand = "*"
rand_chacha = "*"
rayon = "1"
time = "0.3"
tokio = { version = "1", default-features = false, features = ["sync"] }
tracing = "0.1"
