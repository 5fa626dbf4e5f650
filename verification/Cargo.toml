[package]
name = "horto_os_ui_shared"
version = "0.1.0"
edition = "2021"
publish = false

[dependencies]
serde = { version = "1", features = ["derive"] }
serde_json = "1"
clap = { version = "4", features = ["derive", "env"] }
axum = "*"
tokio = { version = "1", features = ["rt-multi-thread", "macros", "net"] }
tower-http = { version = "*", features = ["cors", "trace"] }
tracing = "0.1"
tracing-subscriber = { version = "0.3", features = ["env-filter", "fmt"] }
anyhow = "1"
chrono = { version = "0.4", features = ["serde"] }
which = "*"
