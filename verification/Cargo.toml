[package]
name = "eurus"
version = "0.1.0"
edition = "2021"
publish = false

[dependencies]
anyhow = "1"
base64 = "0.13"
futures = "0.3"
hyper = "0.13"
mongodb = "1"
paho-mqtt = { version = "0.8", default-features = false, features = ["bundled"] }
rand = "0.7"
serde = { version = "1", features = ["derive"] }
serde_json = "1"
thiserror = "1"
tokio = { version = "0.2", features = ["full"] }
toml = "0.5"
tracing = "0.1"
tracing-subscriber = "0.2"
