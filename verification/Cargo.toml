[package]
name = "txauxdecoder"
version = "0.1.0"
edition = "2021"
publish = false

[dependencies]
base64 = "*"
secp256k1 = { version = "*", features = ["recovery"] }
sha3 = "*"

[dev-dependencies]
serde_json = "*"
