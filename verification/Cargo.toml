[package]
name = "wasmlib"
version = "0.1.0"
edition = "2021"
publish = false

[dependencies]
bs58 = "*"
blake2 = "*"
serde = { version = "*", features = ["derive"] }
serde_json = "*"
