[package]
name = "wasmos"
version = "0.1.0"
edition = "2021"
publish = false

[dependencies]
anyhow = "1"
url = { version = "2", features = ["serde"] }
uuid = { version = "1", features = ["v4", "serde"] }
serde = { version = "1", features = ["derive"] }
serde_json = "1"
thiserror = "1"
tokio = { version = "1", features = ["full"] }
parking_lot = "0.12"
futures-util = "0.3"
tracing = "0.1"
tracing-subscriber = { version = "0.3", features = ["env-filter"] }
reqwest = { version = "0.12", default-features = false }
tokio-tungstenite = "0.24"
axum = "0.8"
tower-http = { version = "0.6", features = ["fs"] }
wasmtime = "25"
wasmtime-wasi = "25"
