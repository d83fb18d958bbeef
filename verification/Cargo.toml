[package]
name = "streamio"
version = "0.1.0"
edition = "2021"
publish = false

[dependencies]
anyhow = "=1.0.104"
axum = { version = "=0.8.9", features = ["ws"] }
bytemuck = { version = "=1.25.2", features = ["derive"] }
bytes = "=1.12.1"
enigo = "=0.3.0"
futures = "=0.3.34"
glam = "=0.29.3"
gstreamer = "0.23"
gstreamer-sdp = "0.23"
gstreamer-webrtc = "0.23"
openh264 = "=0.9.9"
parking_lot = "=0.12.5"
serde = { version = "=1.0.229", features = ["derive"] }
serde_json = "=1.0.154"
tokio = { version = "=1.54.1", features = ["full"] }
tower-http = { version = "=0.6.11", features = ["cors"] }
tracing = "=0.1.44"
tracing-subscriber = { version = "=0.3.23", features = ["env-filter"] }
webrtc = "=0.12.0"
wgpu = { version = "=23.0.1", default-features = false, features = ["wgsl"] }
