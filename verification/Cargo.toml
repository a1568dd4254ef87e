[package]
name = "xelis_wallet"
version = "0.1.0"
edition = "2021"
publish = false

[dependencies]
argon2 = "0.5"
chacha20poly1305 = "0.10"
ed25519-dalek = "2"
sha3 = "0.10"
rand = "0.8"
clap = { version = "3", features = ["derive"] }
tokio = { version = "1", features = ["rt-multi-thread", "macros", "time", "sync"] }
anyhow = "1"
log = "0.4"
fern = { version = "0.6", features = ["colored"] }
