[package]
name = "monkeylib"
version = "0.1.0"
edition = "2021"
publish = false

[dependencies]
chrono = { version = "0.4", default-features = false, features = ["clock", "std"] }
clap = "4"
crossterm = "*"
env_logger = "*"
futures = "0.3"
libp2p = { version = "*", default-features = false, features = ["ed25519", "gossipsub", "macros", "noise", "tcp", "tokio", "yamux"] }
log = "0.4"
rusty-leveldb = "*"
tokio = { version = "1", features = ["io-std", "io-util", "macros", "rt-multi-thread", "sync"] }
