[package]
name = "secret_vault"
version = "0.1.0"
edition = "2021"
publish = false

[dependencies]
aes-gcm = "0.10"
axum = "*"
blowfish = "0.9"
chacha20poly1305 = "0.10"
chrono = "0.4"
des = "0.8"
hmac = "0.12"
serde = { version = "1", features = ["derive"] }
serde_json = "1"
sha2 = "0.10"
sqlx = { version = "*", default-features = false, features = ["postgres", "runtime-tokio", "derive", "uuid", "chrono", "json"] }
uuid = { version = "1", features = ["v4", "serde"] }
validator = { version = "*", features = ["derive"] }
