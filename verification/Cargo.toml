[package]
name = "esp_gateway"
version = "0.1.0"
edition = "2021"
publish = false

[dependencies]
serde_json = "*"
uuid = { version = "*", features = ["v4"] }
chrono = "*"
tokio = { version = "*", features = ["rt-multi-thread", "net", "time", "sync", "io-util", "macros"] }
tokio-serial = "*"
mdns-sd = "*"
socket2 = "*"
axum = { version = "*", features = ["ws"] }
axum-extra = { version = "*", features = ["cookie"] }
futures = "*"
