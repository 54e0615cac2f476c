[package]
name = "gossip_node"
version = "0.1.0"
edition = "2021"
publish = false

[dependencies]
anyhow = "1"
libp2p = { version = "0.54", default-features = false, features = ["ed25519", "gossipsub", "identify", "kad", "macros", "mdns", "quic", "tokio"] }
tokio = { version = "1", default-features = false, features = ["macros", "rt-multi-thread", "sync", "time"] }
tracing = "0.1"
tracing-subscriber = "0.3"
