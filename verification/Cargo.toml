[package]
name = "core_nft"
version = "0.1.0"
edition = "2021"
publish = false

[dependencies]
candid = "=0.10.39"
ic-cdk = "=0.19.0"
icrc-ledger-types = "=0.1.13"
serde = { version = "=1.0.229", features = ["derive"] }
serde_bytes = "=0.11.19"
serde_cbor = "=0.11.2"
bity-ic-icrc3 = "=0.7.0"
url = "2"
