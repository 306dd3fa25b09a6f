[package]
name = "background_worker"
version = "0.1.0"
edition = "2021"
publish = false

[dependencies]
anyhow = "=1.0.104"
async-compression = { version = "=0.4.51", features = ["tokio", "gzip"] }
axum = { version = "=0.8.9", features = ["macros"] }
chrono = { version = "=0.4.45", default-features = false, features = ["std", "clock"] }
clap = { version = "=4.6.7", features = ["derive"] }
diesel = { version = "2", default-features = false, features = ["postgres_backend", "chrono"] }
diesel-async = { version = "*", features = ["postgres"] }
futures-util = "=0.3.34"
http = "=1.5.0"
object_store = "=0.14.2"
reqwest = { version = "=0.12.28", default-features = false, features = ["stream"] }
rss = { version = "=2.1.2", features = ["atom"] }
serde = { version = "=1.0.229", features = ["derive"] }
serde_json = "=1.0.154"
tokio = { version = "=1.54.1", features = ["rt-multi-thread", "time", "sync", "io-util", "macros", "signal", "net"] }
tokio-tar = "=0.3.1"
tokio-util = { version = "=0.7.20", features = ["io"] }
tracing = "=0.1.44"
utoipa = "=5.5.0"
