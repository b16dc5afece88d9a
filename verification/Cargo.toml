[package]
name = "dt_fetcher"
version = "0.1.0"
edition = "2021"
publish = false

[dependencies]
im = "=15.1.0"
chrono = "=0.4.45"
uuid = { version = "=1.27.0", features = ["serde", "v4"] }
serde = { version = "=1.0.229", features = ["derive"] }
serde_json = "=1.0.151"
serde_with = { version = "=3.24.0", features = ["chrono_0_4"] }
sled = "=0.34.7"
tokio = { version = "=1.53.2", features = ["full"] }
axum = "=0.7.9"
tower-http = { version = "=0.5.2", features = ["cors", "trace"] }
tokio-util = "=0.7.19"
futures-util = "=0.3.34"
anyhow = "=1.0.104"
tracing = "=0.1.44"
tracing-subscriber = { version = "=0.3.23", features = ["env-filter"] }
clap = { version = "=4.6.7", features = ["derive"] }
reqwest = { version = "=0.12.28", default-features = false, features = ["json"] }
