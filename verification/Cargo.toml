[package]
name = "burrowland"
version = "0.1.0"
edition = "2021"
publish = false

[dependencies]
primitive-types = { version = "=0.12.2", default-features = false }
near-sdk = { version = "=5.30.0", default-features = false, features = ["non-contract-usage"] }
hex = "=0.4.3"
