[package]
name = "coo_service"
version = "0.1.0"
edition = "2021"
publish = false

[dependencies]
aes-gcm = "=0.10.3"
base64 = "=0.22.1"
rand = "=0.10.3"
uuid = { version = "=1.29.0", features = ["v4", "serde"] }
sha2 = "=0.10.9"
chrono = { version = "=0.4.45", features = ["serde"] }
suppaftp = { version = "=12.2.1", features = ["tokio"] }
rust-s3 = { version = "=0.35.1", default-features = false, features = ["tokio-rustls-tls"] }
serde = { version = "=1.0.229", features = ["derive"] }
serde_json = "=1.0.154"
axum = "=0.8.9"
tokio = { version = "=1.54.1", features = ["full"] }
tower = "=0.5.3"
tower-http = { version = "=0.6.11", features = ["cors", "limit", "timeout", "trace"] }
tokio-postgres = { version = "=0.7.18", features = ["with-chrono-0_4", "with-uuid-1", "with-serde_json-1"] }
deadpool-postgres = "=0.14.2"
dashmap = "=6.2.1"
tracing = "=0.1.44"
tracing-subscriber = { version = "=0.3.23", features = ["env-filter"] }
anyhow = "=1.0.104"
thiserror = "=2.0.21"
async-trait = "=0.1.92"
futures-util = "=0.3.34"
tokio-util = { version = "=0.7.20", features = ["io"] }
http-body-util = "=0.1.5"
