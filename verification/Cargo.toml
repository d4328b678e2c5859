[package]
name = "rust_proxy"
version = "0.1.0"
edition = "2021"
publish = false

[dependencies]
anyhow = "1"
http = "0.2"
hyper = { version = "0.14", features = ["full"] }
hyper-staticfile = "0.9"
log = "0.4"
pkcs8 = { version = "0.8", features = ["pem"] }
prometheus = "0.13"
rustls = "0.20"
rustls-pemfile = "1"
serde = { version = "1", features = ["derive"] }
serde_json = "1"
serde_yaml = "0.9"
tokio = { version = "1", features = ["full"] }
warp = "0.3"
