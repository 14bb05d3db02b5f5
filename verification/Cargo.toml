[package]
name = "eth_node"
version = "0.1.0"
edition = "2021"
publish = false

[dependencies]
alloy-consensus = { version = "=1.0.23", default-features = false }
alloy-eips = { version = "=1.0.23", default-features = false }
# Not used directly: holds this dependency of alloy-consensus to the version that goes with it.
alloy-tx-macros = { version = "=1.0.23", default-features = false }
eyre = "0.6"
futures = { version = "0.3", default-features = false, features = ["std", "async-await"] }
serde = { version = "1", features = ["derive"] }
tokio = { version = "1", default-features = false, features = ["sync", "macros"] }
tracing = { version = "0.1", default-features = false }
