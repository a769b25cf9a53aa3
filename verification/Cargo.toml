[package]
name = "oracle_node"
version = "0.1.0"
edition = "2021"
publish = false

[dependencies]
anyhow = "*"
futures = "*"
futures-util = "*"
hex = "*"
libp2p = { version = "*", default-features = false, features = ["gossipsub", "mdns", "noise", "yamux", "tcp", "tokio", "macros"] }
num-bigint = "0.4"
redis = { version = "*", default-features = false, features = ["tokio-comp"] }
secp256k1 = "*"
serde = { version = "*", features = ["derive"] }
serde_json = "*"
sha2 = "*"
starknet-core = "*"
tokio = { version = "*", features = ["rt-multi-thread", "macros", "sync", "net", "time", "io-util"] }
