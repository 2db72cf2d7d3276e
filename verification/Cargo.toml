[package]
name = "bumps-pipe"
version = "0.1.0"
edition = "2021"
publish = false

[dependencies]
anyhow = "1"
axum = { version = "0.7", features = ["ws"] }
bytes = "1"
clap = { version = "4", features = ["derive", "env"] }
futures-util = "0.3"
gstreamer = "0.23"
gstreamer-app = "0.23"
gstreamer-video = "0.23"
rml_rtmp = "0.8"
serde = { version = "1", features = ["derive"] }
serde_json = "1"
tokio = { version = "1", features = ["full"] }
tracing = "0.1"
tracing-subscriber = { version = "0.3", features = ["env-filter"] }
