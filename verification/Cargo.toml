[package]
name = "hook-core"
version = "0.1.0"
edition = "2021"
publish = false

[dependencies]
anyhow = "=1.0.104"
axum = { version = "=0.8.9", default-features = false, features = ["http1", "tokio"] }
clap = { version = "=4.6.7", default-features = false, features = ["std", "help", "usage", "derive", "env"] }
dotenvy = "=0.15.7"
hex = "=0.4.3"
hmac = "=0.12.1"
matrix-sdk = { version = "=0.13.0", default-features = false, features = ["e2e-encryption", "sqlite", "bundled-sqlite", "rustls-tls", "markdown"] }
rand = "=0.8.8"
reqwest = { version = "=0.12.28", default-features = false, features = ["json", "rustls-tls"] }
serde = { version = "=1.0.229", features = ["derive"] }
serde_json = "=1.0.154"
sha1 = "=0.10.7"
tokio = { version = "=1.54.1", features = ["rt-multi-thread", "macros", "net", "sync", "time"] }
tracing = "=0.1.44"
tracing-subscriber = { version = "=0.3.23", default-features = false, features = ["std", "fmt", "env-filter"] }
