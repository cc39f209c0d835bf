[package]
name = "rust_practice"
version = "0.1.0"
edition = "2021"
publish = false

[dependencies]
sha1 = "0.10"
hex = "0.4"
blake3 = { version = "1", features = ["pure"] }
ed25519-dalek = { version = "2", features = ["rand_core"] }
rand = "0.8"
base64 = "0.22"
argon2 = "0.5"
uuid = { version = "1", features = ["v7"] }
anyhow = "1"
clap = { version = "4", features = ["derive"] }
tokio = { version = "1", features = ["full"] }
serde = { version = "1", features = ["derive"] }
serde_json = "1"
serde_yaml = "0.9"
toml = "0.8"
csv = "1"
axum = { version = "0.8", features = ["multipart"] }
axum-extra = { version = "0.10", features = ["typed-header"] }
thiserror = "2"
jwt-simple = { version = "0.12", default-features = false, features = ["pure-rust"] }
dashmap = "6"
chrono = { version = "0.4", features = ["serde"] }
tracing = "0.1"
tracing-subscriber = "0.3"
tower = "0.5"
tower-http = { version = "0.6", features = ["fs", "trace", "compression-gzip", "compression-br", "compression-deflate"] }
mime_guess = "2"
tokio-util = { version = "0.7", features = ["io"] }
futures = "0.3"
sqlx = { version = "0.8", features = ["runtime-tokio", "postgres", "chrono"] }
