[package]
name = "grabbit"
version = "0.1.0"
edition = "2021"
publish = false

[dependencies]
aes-gcm = "0.10"
arboard = { version = "=3.7.0", default-features = false }
base64 = "=0.22.1"
chrono = "=0.4.45"
hex = "=0.4.3"
iced = { version = "=0.12.1", default-features = false }
rand = "=0.9.5"
regex = "=1.13.1"
serde = { version = "=1.0.229", features = ["derive"] }
serde_json = "=1.0.154"
tokio = { version = "=1.54.1", features = ["rt-multi-thread", "macros"] }
url = "=2.5.8"
whoami = "=1.6.1"
zstd = "=0.13.4"
