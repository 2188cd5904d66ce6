[package]
name = "sft_ledger"
version = "0.1.0"
edition = "2021"
publish = false

[dependencies]
candid = "*"
ciborium = "*"
hmac = "*"
ic-cdk = "*"
ic-cdk-timers = "*"
ic-stable-structures = "*"
icrc-ledger-types = "*"
num-traits = "*"
serde = "*"
serde_bytes = "*"
sha3 = "*"
