[package]
name = "blog_content"
version = "0.1.0"
edition = "2021"
publish = false

[dependencies]
anyhow = "=1.0.104"
axum = "=0.8.9"
chrono = "=0.4.45"
comrak = { version = "=0.57.0", default-features = false }
futures = "=0.3.34"
notify = "=8.2.1"
rss = "=2.1.2"
serde = { version = "=1.0.229", features = ["derive"] }
tera = { version = "=1.20.1", default-features = false }
tokio = { version = "=1.54.1", features = ["rt-multi-thread", "macros", "fs", "net", "sync", "time"] }
toml = "=1.1.8"
tower-http = { version = "=0.7.1", features = ["fs"] }
tracing = "=0.1.44"
tracing-subscriber = { version = "=0.3.23", features = ["env-filter"] }
uuid = { version = "=1.29.0", features = ["v4"] }
