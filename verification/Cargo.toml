[package]
name = "flowgrid"
version = "0.1.0"
edition = "2021"
publish = false

[dependencies]
bytes = "1"
futures = "0.3"
hex = "0.4"
hmac = "0.12"
httpdate = "1"
reqwest = { version = "0.12", default-features = false, features = ["json", "stream", "multipart", "rustls-tls"] }
serde = { version = "1", features = ["derive"] }
serde_json = "1"
sha2 = "0.10"
subtle = "2"
thiserror = "1"
tokio = { version = "1", features = ["rt-multi-thread", "macros", "time", "io-util"] }
tokio-util = { version = "0.7", features = ["io"] }
url = "2"
