[package]
name = "mtgbrain"
version = "0.1.0"
edition = "2021"
publish = false

[dependencies]
anyhow = "1"
base64 = "0.22"
clap = { version = "4", features = ["derive", "env"] }
flate2 = "1"
image = { version = "0.25", default-features = false, features = ["png", "jpeg", "webp", "gif"] }
resvg = { version = "*", default-features = false }
rusqlite = "*"
serde = { version = "1", features = ["derive"] }
serde_json = "1"
sha2 = "0.10"
tiny_http = "0.12"
