[package]
name = "oden_webrtc_server"
version = "0.1.0"
edition = "2021"
publish = false

[dependencies]
anyhow = "1"
axum = { version = "0.8", features = ["ws"] }
clap = { version = "4", features = ["derive"] }
env_logger = "0.11"
futures-util = "0.3"
gstreamer = "0.22"
gstreamer-sdp = "0.22"
gstreamer-webrtc = "0.22"
log = "0.4"
serde = { version = "1", features = ["derive"] }
serde_json = "=1.0.154"
tokio = { version = "1", features = ["rt-multi-thread", "macros", "net", "sync"] }
