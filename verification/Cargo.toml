[package]
name = "quicfs"
version = "0.1.0"
edition = "2021"
publish = false

[dependencies]
anyhow = "1"
axum = { version = "0.7", default-features = false, features = ["json"] }
bytes = "1"
clap = { version = "4", features = ["derive"] }
fuser = { version = "0.14", default-features = false }
futures = "0.3"
h3 = "0.0.8"
h3-quinn = "0.0.10"
http = "1"
libc = "0.2"
quinn = "0.11"
rcgen = "0.13"
rustls = "0.23"
serde = { version = "1", features = ["derive"] }
serde_json = "1"
tokio = { version = "1", features = ["full"] }
tracing = "0.1"
tracing-subscriber = "0.3"
urlencoding = "2"
