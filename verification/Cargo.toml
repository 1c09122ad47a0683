[package]
name = "uptime_core"
version = "0.1.0"
edition = "2021"
publish = false

[dependencies]
chrono = "=0.4.45"
axum = "=0.8.9"
tokio = { version = "=1.53.2", features = ["rt-multi-thread", "macros", "signal", "time", "net"] }
sea-orm = { version = "=2.0.4", default-features = false, features = ["macros", "with-chrono", "with-uuid"] }
bollard = "=0.21.1"
serde = { version = "=1.0.229", features = ["derive"] }
toml = "=1.1.6"
uuid = { version = "=1.27.0", features = ["v4"] }
