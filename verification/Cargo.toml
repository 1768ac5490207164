[package]
name = "reqly"
version = "0.1.0"
edition = "2021"
publish = false

[dependencies]
url = "2"
curl = "0.4"
tokio = { version = "1", features = ["full"] }
tokio-tungstenite = "0.21"
futures = "0.3"
log = "0.4"
serde = { version = "1", features = ["derive"] }
serde_json = "1"
socketio-rs = "*"
