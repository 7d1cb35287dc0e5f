[package]
name = "bugs"
version = "0.1.0"
edition = "2021"
publish = false

[dependencies]
rand = "=0.8.8"
hex = "=0.4.3"
sha1 = "=0.10.7"
serde = { version = "=1.0.229", features = ["derive"] }
serde_json = "=1.0.154"
json5 = "=0.4.1"
redb = "=2.6.4"
zstd = "=0.13.4"
parking_lot = "=0.12.5"
async-trait = "=0.1.92"
thiserror = "=1.0.69"
tokio = { version = "=1.54.1", features = ["full"] }
tokio-stream = "=0.1.19"
futures = "=0.3.34"
reqwest = { version = "=0.12.28", default-features = false, features = ["json", "stream", "blocking", "rustls-tls"] }
axum = "=0.8.9"
clap = { version = "=4.6.7", features = ["derive"] }
crossterm = "=0.28.1"
ratatui = "=0.29.0"
qrcode = { version = "=0.14.1", default-features = false }
zip = { version = "=2.6.1", default-features = false, features = ["deflate"] }
headless_chrome = "=1.0.22"
