[package]
name = "bookview_collector"
version = "0.1.0"
edition = "2021"
publish = false

[dependencies]
ahash = "0.8"
alloy = { version = "1", default-features = false, features = ["sol-types"] }
anyhow = "1"
base64 = "0.22"
chrono = { version = "0.4", default-features = false, features = ["std"] }
clap = { version = "4", default-features = false, features = ["derive", "help", "std", "usage", "error-context"] }
dashmap = "6"
dotenvy = "0.15"
futures-util = "0.3"
hmac = "0.12"
ort = { version = "=2.0.0-rc.10", default-features = false, features = ["load-dynamic"] }
rayon = "1"
reqwest = { version = "0.12", default-features = false, features = ["json", "rustls-tls"] }
rust_decimal = { version = "1", default-features = false }
rustls = { version = "0.23", default-features = false, features = ["ring", "std"] }
serde = { version = "1", features = ["derive"] }
serde_json = { version = "1", features = ["raw_value"] }
sha2 = "0.10"
thiserror = "2"
tokio = { version = "1", features = ["full"] }
tokio-tungstenite = { version = "0.26", features = ["rustls-tls-webpki-roots"] }
tokio-util = "0.7"
tracing = "0.1"
tracing-subscriber = { version = "0.3", default-features = false, features = ["env-filter", "fmt"] }
