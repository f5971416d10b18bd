[package]
name = "esruntime"
version = "0.1.0"
edition = "2021"
publish = false

[dependencies]
uuid = { version = "=1.29.0", features = ["v4", "serde"] }
serde = { version = "=1.0.229", features = ["derive"] }
serde_json = "=1.0.154"
chrono = { version = "=0.4.45", features = ["serde"] }
umadb-dcb = "=0.7.8"
umadb-client = "=0.7.8"
tokio = { version = "=1.54.1", features = ["time", "net", "rt", "macros"] }
futures = "=0.3.34"
sqlx = { version = "=0.9.0", default-features = false, features = ["postgres", "runtime-tokio"] }
thiserror = "=2.0.21"
tracing = "=0.1.44"
axum = "=0.8.9"
axum-idempotent = "=0.4.0"
ruts = { version = "=0.11.1", features = ["moka-store"] }
tower-cookies = "=0.11.0"
tower-http = { version = "=0.7.1", features = ["timeout"] }
base64 = "=0.22.1"
