[package]
name = "tendermint_operator"
version = "0.1.0"
edition = "2021"
publish = false

[dependencies]
subtle-encoding = "=0.5.1"
tendermint = "=0.40.4"
tendermint-light-client-verifier = "=0.40.4"
serde = { version = "=1.0.229", features = ["derive"] }
serde_json = "=1.0.154"
serde_cbor = "=0.11.2"
reqwest = { version = "=0.11.27", default-features = false, features = ["json"] }
tokio = { version = "=1.54.1", features = ["rt-multi-thread", "macros", "time"] }
anyhow = "=1.0.104"
log = "=0.4.34"
dotenv = "=0.15.0"
alloy-sol-types = "=1.7.3"
