[package]
name = "rclone-mount-ext"
version = "0.1.0"
edition = "2021"
publish = false

[dependencies]
anyhow = "1"
clap = { version = "4", features = ["derive"] }
cvt = "0.1"
futures-util = "0.3"
libc = "0.2"
secret-service = { version = "*", features = ["rt-tokio-crypto-rust"] }
tokio = { version = "1", features = ["full"] }
tracing = "0.1"
tracing-subscriber = { version = "0.3", features = ["env-filter"] }
zbus = { version = "5", default-features = false, features = ["tokio"] }
