[package]
name = "burn_after_reading"
version = "0.1.0"
edition = "2021"
publish = false

[dependencies]
anyhow = "1"
async-compat = "0.2"
base64 = "0.13"
cookie = "0.16"
futures = "0.3"
generic-array = "0.14"
http = "0.2"
hyper = { version = "0.14", features = ["stream"] }
lazy_static = "1"
pwhash = "1"
rand = "0.8"
serde = { version = "1", features = ["derive"] }
serde_json = "1"
serde_yaml = "0.8"
sha2 = "0.9"
sled = "0.34"
slog = "2"
slog-async = "2"
slog-term = "2"
time = "0.3"
tokio = { version = "1", features = ["full"] }
warp = "0.3"
web-static-pack = "0.4"
