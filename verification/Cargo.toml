[package]
name = "laver_agent"
version = "0.1.0"
edition = "2021"
publish = false

[dependencies]
rand = "=0.8.8"
regex = "=1.13.1"
serde = { version = "=1.0.229", features = ["derive"] }
serde_json = "=1.0.154"
serde_yaml = "=0.9.34"
croner = "=2.2.0"
uuid = { version = "=1.29.0", features = ["v4"] }
chrono = "=0.4.45"
glob = "=0.3.4"
base64 = "=0.22.1"
fs4 = { version = "=0.12.0", features = ["sync"] }
zip = { version = "=2.6.1", default-features = false, features = ["deflate"] }
tokio = { version = "=1.54.1", features = ["rt-multi-thread", "macros", "fs", "process", "time", "sync", "io-util"] }
async-trait = "=0.1.92"
futures-util = "=0.3.34"
tracing = "=0.1.44"
reqwest = { version = "=0.12.28", default-features = false, features = ["json", "stream", "rustls-tls"] }
rusqlite = { version = "=0.32.1", features = ["bundled"] }
keyring = { version = "3", features = ["windows-native"] }
