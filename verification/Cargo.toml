[package]
name = "codex_mp"
version = "0.1.0"
edition = "2021"
publish = false

[dependencies]
argon2 = { version = "0.5", features = ["std"] }
password-hash = { version = "0.5", features = ["std", "getrandom", "rand_core"] }
sha2 = "0.10"
base64 = "0.22"
url = "2"
form_urlencoded = "1"
http = "1"
uuid = { version = "1", features = ["v4"] }
serde = { version = "1", features = ["derive"] }
serde_json = "1"
flate2 = "1"
brotli = "*"
zstd = "0.13"
mime_guess = "2"
axum = { version = "0.8", features = ["multipart"] }
tokio = { version = "1", features = ["full"] }
reqwest = { version = "0.12", default-features = false, features = ["stream", "json", "rustls-tls"] }
secrecy = "0.10"
thiserror = "2"
tracing = "0.1"
futures = "0.3"
bytes = "1"
directories = "6"
libc = "0.2"
tower-http = { version = "0.6", features = ["cors"] }
rust-embed = "8"
