[package]
name = "linkstore"
version = "0.1.0"
edition = "2021"
publish = false

[dependencies]
anyhow = "1"
argon2 = { version = "0.5", features = ["std"] }
axum = { version = "0.6", features = ["headers"] }
axum-extra = { version = "0.7", features = ["cookie-signed"] }
axum-macros = "0.3"
clap = { version = "4", features = ["derive"] }
inquire = "0.6"
jsonwebtoken = "8"
lazy_static = "1"
secrecy = { version = "0.8", features = ["serde"] }
serde = { version = "1", features = ["derive"] }
serde_json = "1"
serde_yaml = "0.9"
tera = { version = "1", default-features = false }
tokio = { version = "1", features = ["full"] }
tracing = "0.1"
tracing-subscriber = { version = "0.3", features = ["env-filter"] }
