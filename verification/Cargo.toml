[package]
name = "fhe_service"
version = "0.1.0"
edition = "2021"
publish = false

[dependencies]
axum = "=0.8.9"
base64 = "=0.23.1"
bincode = "=1.3.3"
once_cell = "=1.21.4"
ring = "=0.17.14"
serde = { version = "=1.0.229", features = ["derive"] }
tokio = { version = "=1.53.2", features = ["rt-multi-thread", "macros", "sync"] }
tower-http = { version = "=0.7.1", features = ["limit"] }
