[package]
name = "splicefeed"
version = "0.1.0"
edition = "2021"
publish = false

[dependencies]
axum = "0.8"
backon = "1"
blake3 = { version = "1", features = ["pure"] }
clap = { version = "4", features = ["derive", "env"] }
clap_complete = "4"
colored = "3"
etcetera = "*"
fastrand = "2"
figment = { version = "0.10", features = ["toml"] }
humansize = "2"
humantime = "2"
jiff = "0.2"
lofty = "*"
opentelemetry = "0.31"
opentelemetry-otlp = { version = "0.31", default-features = false, features = ["metrics", "http-proto", "reqwest-client"] }
opentelemetry-prometheus = "0.31"
opentelemetry_sdk = { version = "0.31", features = ["metrics"] }
prometheus = { version = "0.14", default-features = false }
quick-xml = "*"
ratatui = "*"
reqwest = { version = "0.12", default-features = false, features = ["rustls-tls", "stream"] }
rusqlite = { version = "*", features = ["bundled"] }
secrecy = "0.10"
serde = { version = "1", features = ["derive"] }
serde_json = "1"
tempfile = "3"
tokio = { version = "1", features = ["full"] }
tower-http = { version = "0.6", features = ["fs"] }
url = "2"

[dev-dependencies]
feed-rs = "2"
