[package]
name = "melodie"
version = "0.1.0"
edition = "2021"
publish = false

[dependencies]
anyhow = "1"
crossbeam-channel = "0.5"
csv = "1"
dirs = "5"
lofty = "0.21"
md5 = "0.7"
qrcode = { version = "0.14", default-features = false }
rusqlite = { version = "0.32", features = ["bundled"] }
serde = { version = "1", features = ["derive"] }
serde_json = "1"
tiny_http = "0.12"
toml = "0.8"
