[package]
name = "musawarah"
version = "0.1.0"
edition = "2021"
publish = false

[dependencies]
bytes = "=1.12.1"
uuid = "=1.27.0"
chrono = { version = "0.4", default-features = false, features = ["alloc"] }
serde = { version = "1", features = ["derive"] }
serde_json = "1"
toml = "0.8"
tokio = { version = "1", features = ["rt-multi-thread", "macros"] }
futures-util = "0.3"
aws-sdk-s3 = { version = "1", default-features = false }
aws-smithy-types = "1"
axum = "0.6"
http-body = "1"
sync_wrapper = "1"
