[package]
name = "cloud_music"
version = "0.1.0"
edition = "2021"
publish = false

[dependencies]
qrcode-generator = "=4.1.9"
serde = { version = "=1.0.229", features = ["derive"] }
serde_json = "=1.0.154"
reqwest = { version = "=0.11.27", default-features = false, features = ["rustls-tls", "gzip", "cookies"] }
tokio = { version = "=1.54.1", features = ["full"] }
rodio = "=0.15.0"
crossterm = "=0.25.0"
tui = { version = "=0.19.0", default-features = false, features = ["crossterm"] }
lazy_static = "=1.5.1"
aes = "0.8"
cbc = { version = "0.1", features = ["alloc"] }
base64 = "0.21"
num-bigint = "0.4"
rand = "0.8"
