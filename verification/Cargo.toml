[package]
name = "libp2p_webrtc"
version = "0.1.0"
edition = "2021"
publish = false

[dependencies]
acme-lib = "=0.8.2"
anyhow = "1"
async-datachannel = "=0.3.0"
async-stream = "0.3"
async-tungstenite = { version = "=0.15.0", features = ["tokio-native-tls"] }
clap = { version = "3.2", features = ["derive"] }
futures = "0.3"
futures-timer = "3"
libp2p = { version = "=0.40.0", default-features = false, features = ["mplex", "noise", "ping", "yamux"] }
log = "0.4"
parking_lot = "0.11"
pin-project = "1"
serde = { version = "1", features = ["derive"] }
serde_json = "1"
thiserror = "1"
tokio = { version = "1", features = ["full"] }
tokio-rustls = "=0.22.0"
tokio-stream = "0.1"
tokio-util = { version = "0.6", features = ["compat"] }
tracing = "0.1"
tracing-subscriber = "0.2"
warp = "0.3"
