[package]
name = "ironshelf"
version = "0.1.0"
edition = "2021"
publish = false

[dependencies]
sha2 = "=0.10.9"
hmac = "=0.12.1"
base64 = "=0.22.1"
hex = "=0.4.3"
chrono = { version = "=0.4.45", default-features = false, features = ["clock", "std"] }
quick-xml = "=0.37.5"
urlencoding = "=2.1.3"
argon2 = { version = "=0.5.3", features = ["std"] }
serde = { version = "=1.0.229", features = ["derive"] }
serde_json = "1"
toml = "=0.8.23"
tokio = { version = "=1.54.1", features = ["sync", "rt", "macros", "time"] }
anyhow = "=1.0.104"
totp-rs = { version = "=5.7.2", features = ["otpauth"] }
zip = { version = "=2.6.1", default-features = false, features = ["deflate"] }
