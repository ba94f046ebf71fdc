[package]
name = "wiki_store"
version = "0.1.0"
edition = "2021"
publish = false

[dependencies]
sled = "=0.34.7"
chrono = "=0.4.45"
bincode = "=1.3.3"
rust-argon2 = "=0.8.3"
rand = "=0.8.8"
uuid = { version = "=1.29.0", features = ["v4"] }
dashmap = "=5.5.3"
base64 = "=0.13.1"
rocket = "0.5"
rocket_dyn_templates = { version = "0.2", features = ["tera"] }
serde = { version = "1", features = ["derive"] }
serde_json = "1"
pulldown-cmark = { version = "0.8", default-features = false }
tantivy = "0.15"
captcha = "0.0.9"
parking_lot = "0.11"
log = "0.4"
thiserror = "1"
