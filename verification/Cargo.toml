[package]
name = "aerogram"
version = "0.1.0"
edition = "2021"
publish = false

[dependencies]
uuid = { version = "=1.29.0", features = ["serde"] }
serde = { version = "=1.0.229", features = ["derive"] }
serde_json = "=1.0.154"
thiserror = "=2.0.21"
chrono = { version = "=0.4.45", features = ["serde"] }
clap = { version = "=4.6.7", features = ["derive"] }
tokio = { version = "=1.54.1", features = ["rt-multi-thread", "macros"] }
anyhow = "=1.0.104"
async-trait = "=0.1.92"
axum = "=0.8.9"
tracing-subscriber = "=0.3.23"
hmac = "=0.12.1"
sha2 = "=0.10.9"
toml = "=1.1.8"
humantime-serde = "=1.1.1"
ed25519-dalek = { version = "2", features = ["pkcs8", "pem"] }
rsa = { version = "0.9", features = ["sha2"] }
