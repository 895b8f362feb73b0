[package]
name = "generic-data-transfer"
version = "0.1.1"
edition = "2021"
publish = false

[dependencies]
base64 = "=0.13.1"
cosmwasm-std = "=1.5.11"
cw2 = "=1.1.2"
cw-storage-plus = "=1.2.0"
hex = "=0.4.3"
router-wasm-bindings = { version = "=0.1.11", features = ["ethabi"] }
schemars = "=0.8.22"
serde = { version = "=1.0.229", features = ["derive"] }
