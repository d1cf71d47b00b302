[package]
name = "lighter_mm"
version = "0.1.0"
edition = "2021"
publish = false

[dependencies]
anyhow = "1"
arc-swap = "1"
chrono = { version = "0.4", default-features = false, features = ["clock", "std"] }
core_affinity = "0.8"
csv = "1"
dotenvy = "0.15"
fast-float = "0.2"
futures-util = "0.3"
libc = "0.2"
libloading = "0.8"
parking_lot = "0.12"
reqwest = { version = "0.12", default-features = false, features = ["json", "rustls-tls"] }
serde = { version = "1", features = ["derive"] }
serde_json = "1"
tokio = { version = "1", features = ["full"] }
tokio-tungstenite = { version = "0.24", features = ["rustls-tls-webpki-roots"] }
tracing = "0.1"
tracing-appender = "0.2"
tracing-subscriber = { version = "0.3", features = ["env-filter"] }
