[package]
name = "kanari"
version = "0.1.0"
edition = "2021"
publish = false

[dependencies]
anyhow = "=1.0.104"
bech32 = "=0.11.1"
bitcoin = "=0.32.102"
hex = "=0.4.3"
jsonrpsee = { version = "0.24", default-features = false, features = ["server"] }
serde = { version = "=1.0.229", features = ["derive"] }
serde_json = "=1.0.154"
