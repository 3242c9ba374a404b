[package]
name = "frontier"
version = "0.1.0"
edition = "2021"
publish = false

[dependencies]
url = "2"
hex = "0.4"
sha2 = "0.10"
base64 = "0.22"
percent-encoding = "2"
html-escape = "0.2"
serde_urlencoded = "0.7"
nostr-sdk = { version = "0.44", default-features = false }
kuchiki = "0.8"
x509-parser = "0.16"
serde = { version = "1", features = ["derive"] }
serde_json = "1"
serde_yaml = "0.9"
tokio = { version = "1", features = ["rt-multi-thread", "macros", "time", "sync"] }
rusqlite = { version = "0.31", features = ["bundled"] }
r2d2 = "0.8"
r2d2_sqlite = "0.24"
directories = "5"
thiserror = "1"
anyhow = "1"
reqwest = { version = "0.12", default-features = false, features = ["rustls-tls", "blocking"] }
rustls = "0.23"
