[package]
name = "maptoposter"
version = "0.1.0"
edition = "2021"
publish = false

[dependencies]
tiny-skia = "0.11"
urlencoding = "2"
axum = "0.7"
tokio = { version = "1", features = ["full"] }
tokio-stream = "0.1"
tokio-util = { version = "0.7", features = ["io"] }
tower-http = { version = "0.5", features = ["cors", "fs", "trace"] }
futures = "0.3"
reqwest = { version = "0.12", default-features = false, features = ["json"] }
serde = { version = "1", features = ["derive"] }
serde_json = "1"
parking_lot = "0.12"
uuid = { version = "1", features = ["v4"] }
chrono = "0.4"
fontdue = "0.8"
