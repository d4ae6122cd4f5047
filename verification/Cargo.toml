[package]
name = "anemone_bot"
version = "0.1.0"
edition = "2021"
publish = false

[dependencies]
htmlescape = "=0.3.1"
base64 = "=0.22.1"
tokio = { version = "=1.54.1", features = ["full"] }
tokio-util = "=0.7.20"
tokio-stream = "=0.1.19"
tokio-tungstenite = { version = "=0.26.2", features = ["native-tls"] }
tokio-native-tls = "=0.3.1"
native-tls = "=0.2.18"
futures-util = "=0.3.34"
async-trait = "=0.1.92"
axum = { version = "=0.8.9", features = ["ws"] }
reqwest = { version = "=0.13.5", default-features = false, features = ["json", "multipart", "native-tls"] }
serenity = { version = "=0.12.5", default-features = false, features = ["builder", "http", "model", "utils", "native_tls_backend"] }
rusqlite = { version = "=0.32.1", features = ["bundled"] }
serde = { version = "=1.0.229", features = ["derive"] }
serde_json = "=1.0.154"
toml = "=0.8.23"
thiserror = "=2.0.21"
tracing = "=0.1.44"
tracing-subscriber = { version = "=0.3.23", features = ["env-filter"] }
