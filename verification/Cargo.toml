[package]
name = "deskunion"
version = "0.1.0"
edition = "2021"
publish = false

[dependencies]
slab = "=0.4.12"
serde = { version = "=1.0.229", features = ["derive"] }
serde_json = "1"
thiserror = "=2.0.21"
log = "=0.4.35"
futures = "=0.3.34"
tokio = { version = "=1.54.1", features = ["full"] }
tokio-util = "=0.7.20"
tokio-stream = { version = "=0.1.19", features = ["io-util"] }
local-channel = "=0.1.5"
async-trait = "=0.1.92"
async-channel = "=2.5.0"
webrtc-dtls = { version = "=0.12.0", features = ["pem"] }
webrtc-util = "=0.11.0"
rustls = "=0.23.46"
hostname = "=0.4.2"
ringbuf = "=0.4.8"
rubato = "=0.16.2"
opus = "=0.3.1"
cpal = "=0.18.2"
relm4 = { version = "=0.11.0", features = ["libadwaita"] }
toml = "*"
