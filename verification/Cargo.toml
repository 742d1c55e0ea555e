[package]
name = "solana"
version = "0.12.0"
edition = "2021"
publish = false

[dependencies]
bincode = "=1.3.3"
bs58 = "=0.2.5"
jsonrpc-core = "=10.1.0"
jsonrpc-derive = "=10.1.0"
log = "=0.4.35"
memmap = "=0.7.0"
serde = { version = "=1.0.229", features = ["derive"] }

[dev-dependencies]
rand = "0.6"
