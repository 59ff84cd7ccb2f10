[package]
name = "zkp_aggregator"
version = "0.1.0"
edition = "2021"
publish = false

[dependencies]
alloy = { version = "=2.5.0", default-features = false, features = ["consensus", "network", "signer-local"] }
alloy-primitives = "=1.7.3"
alloy-sol-types = "=1.7.3"
anyhow = "1"
dotenv = "*"
futures-util = "*"
serde = { version = "1", features = ["derive"] }
serde_json = "1"
tokio = { version = "1", features = ["macros", "rt-multi-thread"] }
tokio-tungstenite = "*"
url = "2"
