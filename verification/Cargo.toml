[package]
name = "oasis_sdk"
version = "0.1.0"
edition = "2021"
publish = false

[dependencies]
blake3 = "=1.8.7"
deoxysii = "=0.2.4"
oasis-cbor = "=0.2.1"
oasis-cbor-value = "=0.5.1"
Inflector = "=0.11.4"
syn = { version = "=1.0.109", features = ["full", "extra-traits"] }
quote = "=1.0.47"
proc-macro2 = "=1.0.107"
darling = "=0.13.4"
