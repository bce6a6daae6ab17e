[package]
name = "laukey"
version = "0.1.0"
edition = "2021"
publish = false

[dependencies]
tantivy = "=0.21.1"
zstd-sys = "=2.0.9+zstd.1.5.5"
chrono = "=0.4.45"
ulid = "=1.2.1"
serde = { version = "=1.0.229", features = ["derive"] }
serde_json = "=1.0.154"
axum = "=0.6.20"
tokio = { version = "=1.54.1", features = ["full"] }
tower-http = { version = "=0.4.4", features = ["cors", "fs"] }
rusqlite = "=0.29.0"
log = "=0.4.35"
simple_logger = "=4.3.3"
