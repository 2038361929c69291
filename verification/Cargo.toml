[package]
name = "snaplan"
version = "0.1.0"
edition = "2021"
publish = false

[dependencies]
aes-gcm = "=0.10.3"
base64 = "=0.21.7"
ed25519-dalek = { version = "=2.2.0", features = ["rand_core"] }
hkdf = "=0.12.4"
hostname = "=0.3.1"
mdns-sd = "=0.21.7"
rand = "=0.8.8"
serde = { version = "=1.0.229", features = ["derive"] }
serde_json = "=1.0.154"
sha2 = "=0.10.9"
thiserror = "=1.0.69"
tokio = { version = "=1.54.1", features = ["full"] }
uuid = { version = "=1.29.0", features = ["v4"] }
x25519-dalek = { version = "=2.0.1", features = ["static_secrets"] }
axum = { version = "=0.7.9", features = ["ws"] }
axum-server = { version = "0.7.3", default-features = false, features = ["tls-rustls-no-provider"] }
rustls = { version = "0.23", default-features = false, features = ["ring", "std", "tls12"] }
tower-http = { version = "=0.5.2", features = ["cors"] }
