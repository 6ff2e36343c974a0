[package]
name = "barter_node"
version = "0.1.0"
edition = "2021"
publish = false

[dependencies]
anyhow = "1"
ed25519-dalek = "1"
futures = "0.3"
hex = "0.4"
prost = "0.14"
prost-types = "0.14"
rand = "0.8"
sha2 = "0.10"
tokio = { version = "1", features = ["rt", "sync", "time"] }
tonic = { version = "0.14", default-features = false }
tracing = "0.1"
