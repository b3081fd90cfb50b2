[package]
name = "duocb"
version = "0.1.0"
edition = "2021"
publish = false

[dependencies]
anyhow = "1"
base64 = "0.22"
crc32fast = "1"
env_logger = "0.11"
futures = "0.3"
hmac = "0.12"
iroh-base = { version = "*", features = ["key"] }
log = "0.4"
mdns-sd = "*"
netdev = "*"
nostr-sdk = { version = "0.44", features = ["nip44"] }
parking_lot = "0.12"
rand = "0.9"
rustls = { version = "0.23", default-features = false, features = ["ring", "std"] }
serde = { version = "1", features = ["derive"] }
serde_json = "1"
sha2 = "0.10"
spake2 = "0.4"
subtle = "2"
swarm-discovery = "*"
tokio = { version = "1", features = ["rt-multi-thread", "macros", "sync", "time", "net", "io-util"] }
tokio-util = "0.7"
