[package]
name = "icrc7_platform"
version = "0.1.0"
edition = "2021"
publish = false

[dependencies]
candid = "0.10"
crc32fast = "1"
dotenv = "0.15"
hex = "0.4"
ic-cdk = "0.13"
ic-stable-structures = "0.6"
icrc-ledger-types = "0.1"
rand = "0.8"
serde = { version = "1", features = ["derive"] }
serde_bytes = "0.11"
serde_json = "1"
sha2 = "0.10"
uuid = "0.8"
