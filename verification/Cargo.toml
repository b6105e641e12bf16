[package]
name = "gaggle"
version = "0.1.0"
edition = "2021"
publish = false

[dependencies]
dirs = "*"
once_cell = "1"
parking_lot = "*"
reqwest = { version = "0.12", default-features = false, features = ["blocking", "json", "rustls-tls"] }
serde = { version = "1", features = ["derive"] }
serde_json = "1"
thiserror = "*"
tracing = "0.1"
tracing-subscriber = { version = "0.3", features = ["env-filter"] }
urlencoding = "2"
zip = { version = "2", default-features = false, features = ["deflate"] }
