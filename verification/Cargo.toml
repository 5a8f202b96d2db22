[package]
name = "reloopy"
version = "0.1.0"
edition = "2021"
publish = false

[dependencies]
hmac = "0.12"
sha2 = "0.10"
hex = "0.4"
similar = { version = "2", default-features = false, features = ["text"] }
serde = { version = "1", features = ["derive"] }
serde_json = "1"
ignore = "0.4"
libc = "0.2"
passfd = "0.1"
clap = { version = "4", features = ["derive"] }
tokio = { version = "1", features = ["full"] }
tokio-stream = "0.1"
axum = "0.8"
reqwest = { version = "0.12", default-features = false, features = ["json", "stream"] }
tracing = "0.1"
tracing-subscriber = { version = "0.3", features = ["env-filter"] }

[dev-dependencies]
tempfile = "3"
