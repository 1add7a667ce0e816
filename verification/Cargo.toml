[package]
name = "transitops_backend"
version = "0.1.0"
edition = "2021"
publish = false

[dependencies]
actix-web = "4"
aes-gcm = "0.10"
argon2 = "0.5"
async-trait = "0.1"
base64 = "0.22"
bigdecimal = "0.4"
chrono = { version = "0.4", features = ["serde"] }
csv = "1"
dotenvy = "0.15"
futures-util = "0.3"
hex = "0.4"
hmac = "0.12"
rand = "0.8"
reqwest = { version = "0.12", default-features = false, features = ["json", "rustls-tls"] }
serde = { version = "1", features = ["derive"] }
serde_json = "1"
sha2 = "0.10"
sqlx = { version = "0.7", default-features = false, features = ["runtime-tokio", "postgres", "uuid", "chrono", "json", "bigdecimal", "macros"] }
thiserror = "1"
tokio = { version = "1", features = ["full"] }
tracing = "0.1"
tracing-subscriber = "0.3"
uuid = { version = "1", features = ["v4", "serde"] }
