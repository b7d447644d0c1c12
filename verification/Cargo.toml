[package]
name = "anime_notif"
version = "0.1.0"
edition = "2021"
publish = false

[dependencies]
regex = "=1.13.1"
sha2 = "=0.10.9"
shellexpand = "=3.1.2"
shell-words = "=1.1.1"
url = "=2.5.8"
serde = { version = "=1.0.229", features = ["derive"] }
serde_json = "=1.0.154"
toml = "=0.8.23"
humantime-serde = "=1.1.1"
chrono = { version = "=0.4.45", default-features = false, features = ["clock", "std"] }
thiserror = "=1.0.69"
tokio = { version = "=1.54.1", features = ["rt-multi-thread", "macros", "time", "net", "signal", "sync"] }
reqwest = { version = "=0.12.28", default-features = false, features = ["rustls-tls"] }
axum = { version = "=0.7.9", default-features = false, features = ["tokio", "http1", "query"] }
rand = "=0.8.8"
directories = "=5.0.1"
libsql = { version = "=0.10.0", default-features = false, features = ["core", "remote"] }
notify-rust = "=4.18.2"
ureq = { version = "=2.12.1", default-features = false }
tracing = "=0.1.44"
tracing-subscriber = { version = "=0.3.23", features = ["env-filter"] }
tracing-appender = "=0.2.5"
