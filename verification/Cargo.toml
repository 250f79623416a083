[package]
name = "velo"
version = "0.1.0"
edition = "2021"
publish = false

[dependencies]
aes-gcm = "0.10"
argon2 = { version = "0.5", features = ["std", "password-hash", "rand"] }
base64 = "0.22"
rand = "0.8"
mail-parser = "0.9"
lettre = { version = "0.11", default-features = false, features = ["smtp-transport", "builder", "tokio1", "tokio1-rustls-tls"] }
time = { version = "0.3", features = ["formatting"] }
axum = "0.7"
axum-extra = { version = "0.9", features = ["cookie"] }
serde = { version = "1", features = ["derive"] }
serde_json = "1"
sqlx = { version = "0.8", default-features = false, features = ["sqlite", "runtime-tokio", "derive"] }
tokio = { version = "1", features = ["full"] }
tower-http = { version = "0.5", features = ["cors", "fs"] }
tracing = "0.1"
tracing-subscriber = { version = "0.3", features = ["env-filter"] }
