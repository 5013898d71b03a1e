[package]
name = "icon_export"
version = "0.1.0"
edition = "2021"
publish = false

[dependencies]
anyhow = "=1.0.104"
indicatif = "=0.17.11"
ironworks = { version = "=0.4.1", features = ["ffxiv", "sqpack", "tex"] }
serde = { version = "=1.0.229", features = ["derive"] }
serde_json = "=1.0.154"
sha2 = "=0.10.9"
texture2ddecoder = "=0.1.2"
webp = { version = "=0.3.1", default-features = false }
zip = { version = "=2.6.1", default-features = false }
