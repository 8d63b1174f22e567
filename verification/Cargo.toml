[package]
name = "copilot-responses-proxy"
version = "0.1.0"
edition = "2021"
publish = false

[dependencies]
anyhow = "=1.0.104"
serde = { version = "=1.0.229", features = ["derive"] }
serde_json = { version = "=1.0.154", features = ["float_roundtrip"] }
reqwest = { version = "=0.12.28", default-features = false, features = ["stream"] }
tokio = { version = "=1.54.1", features = ["rt-multi-thread", "macros", "net", "fs", "io-util"] }
hyper = { version = "=1.12.0", features = ["server", "http1", "http2"] }
hyper-util = { version = "=0.1.21", features = ["tokio", "server-auto"] }
http-body-util = "=0.1.5"
bytes = "=1.12.1"
futures-util = "=0.3.34"
dirs = "=7.0.0"
tao = "=0.37.2"
tray-icon = "=0.26.1"
arboard = "=3.7.0"
