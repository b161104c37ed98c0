[package]
name = "traffic_replay"
version = "0.1.0"
edition = "2021"
publish = false

[dependencies]
anyhow = "1"
chrono = { version = "0.4", features = ["serde"] }
csv = "1"
figment = { version = "0.10", features = ["toml"] }
geo = "*"
geojson = "*"
serde = { version = "1", features = ["derive"] }
serde_json = "1"
slug = "0.1"
tokio = { version = "1", features = ["macros", "rt-multi-thread", "sync", "time"] }
tracing = "0.1"
tracing-subscriber = { version = "0.3", features = ["env-filter", "fmt", "json"] }
vatsim_utils = "*"
walkdir = "2"
