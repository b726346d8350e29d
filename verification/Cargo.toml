[package]
name = "ferro-core"
version = "0.1.0"
edition = "2021"
publish = false

[dependencies]
hex = "=0.4.3"
sha2 = "=0.10.9"
rvf-crypto = "=0.3.0"
serde = { version = "=1.0.229", features = ["derive"] }
serde_json = "=1.0.154"
rand = "=0.9.5"
caps = "=0.5.6"
ed25519-dalek = "=2.2.0"
