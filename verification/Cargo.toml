[package]
name = "request_throttle"
version = "0.1.0"
edition = "2021"
publish = false

[dependencies]
bs58 = "0.4"
log = "0.4"
lru = { version = "0.6", default-features = false }
multihash = { version = "0.13", default-features = false, features = ["std", "multihash-impl", "identity", "sha2"] }
rand = "0.7"
thiserror = "1.0"
