[package]
name = "rathole"
version = "0.5.8"
edition = "2021"
publish = false

[dependencies]
anyhow = "1"
async-compression = { version = "0.4", features = ["tokio", "zstd"] }
async-trait = "0.1"
backoff = { version = "0.4", features = ["tokio"] }
bincode = "1"
bytes = "1"
futures-core = "0.3"
futures-sink = "0.3"
hex = "0.4"
p12 = "0.6"
rand = "*"
rustls-native-certs = "0.8"
rustls-pemfile = "2"
serde = { version = "1", features = ["derive"] }
serde_json = "1"
sha2 = "0.10"
tokio = { version = "1", features = ["full"] }
tokio-rustls = { version = "0.26", default-features = false, features = ["logging", "ring", "tls12"] }
tokio-tungstenite = "0.26"
tokio-util = { version = "0.7", features = ["io"] }
toml = "0.8"
tracing = "0.1"
url = { version = "2", features = ["serde"] }
zstd = "0.13"
