[package]
name = "viper"
version = "0.1.0"
edition = "2021"
publish = false

[dependencies]
dashmap = "6"
anyhow = "1"
async-trait = "0.1"
axum = "0.8"
csv = "1"
dotenvy = "0.15"
fred = { version = "10", features = ["i-redis-json"] }
futures = "0.3"
futures-util = "0.3"
log = "0.4"
pretty_env_logger = "0.5"
reqwest = { version = "0.12", default-features = false, features = ["json", "rustls-tls"] }
rmp-serde = "1"
serde = { version = "1", features = ["derive"] }
serde_json = "1"
tokio = { version = "1", features = ["full"] }
tokio-tungstenite = { version = "0.26", features = ["rustls-tls-webpki-roots"] }
toml = "0.8"
tower-http = { version = "0.6", features = ["cors"] }
