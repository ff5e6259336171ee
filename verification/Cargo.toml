[package]
name = "acp-tunnel"
version = "0.1.0"
edition = "2021"
publish = false

[dependencies]
subtle = "=2.6.1"
serde_with = { version = "=3.24.0", default-features = false, features = ["alloc"] }
serde = { version = "=1.0.229", features = ["derive"] }
serde_json = { version = "=1.0.154", features = ["preserve_order", "raw_value"] }
agent-client-protocol = { version = "=5.0.0", features = ["unstable_protocol_v2"] }
clap = { version = "=4.6.7", features = ["derive"] }
tokio = { version = "=1.54.1", features = ["rt-multi-thread", "macros", "io-std", "io-util", "signal"] }
tokio-util = "=0.7.20"
tracing-subscriber = { version = "=0.3.23", features = ["json", "env-filter"] }
url = "=2.5.8"
