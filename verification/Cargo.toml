[package]
name = "kustd"
version = "0.1.0"
edition = "2021"
publish = false

[dependencies]
async-broadcast = "0.7"
chrono = { version = "0.4", features = ["serde"] }
either = "1"
futures = "0.3"
k8s-openapi = { version = "0.25", features = ["latest"] }
kube = { version = "1", features = ["runtime"] }
serde = { version = "1", features = ["derive"] }
serde_json = "1"
thiserror = "2"
tokio = { version = "1", features = ["macros", "rt", "sync", "time", "signal"] }
tracing = "0.1"
tracing-subscriber = "0.3"
