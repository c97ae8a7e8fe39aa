[package]
name = "txflow"
version = "0.1.0"
edition = "2021"
publish = false

[dependencies]
serde_json = "*"
secp256k1 = { version = "*", features = ["recovery"] }

[dev-dependencies]
hex = "*"
