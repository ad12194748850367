[package]
name = "providers"
version = "0.1.0"
edition = "2021"
publish = false

[dependencies]
base64 = "=0.22.1"
bytes = "=1.12.1"
chrono = { version = "=0.4.45", features = ["serde"] }
hex = "=0.4.3"
hmac = "=0.13.0"
http = "=1.5.0"
http-body-util = "=0.1.5"
hyper = "=1.12.0"
md5 = "=0.8.1"
quick-xml = "=0.39.4"
serde = { version = "=1.0.229", features = ["derive"] }
serde_json = "=1.0.154"
sha1 = "=0.11.0"
sha2 = "=0.11.1"
tokio = { version = "=1.54.1", features = ["rt", "sync", "time"] }
urlencoding = "=2.1.3"
uuid = { version = "=1.29.0", features = ["v4"] }
