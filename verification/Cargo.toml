[package]
name = "frost_swarm"
version = "0.1.0"
edition = "2021"
publish = false

[dependencies]
anyhow = "1"
base64 = "0.22"
bincode = "1"
frost-ed25519 = "*"
futures = "0.3"
libp2p = { version = "0.53", default-features = false, features = ["gossipsub", "identify", "kad", "request-response", "cbor", "noise", "yamux", "tcp", "tokio", "macros"] }
rand = "0.8"
thiserror = "1"
tokio = { version = "1", default-features = false, features = ["macros", "rt", "sync", "time"] }
