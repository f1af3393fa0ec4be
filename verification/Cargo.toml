[package]
name = "pi_grow"
version = "0.1.0"
edition = "2021"
publish = false

[dependencies]
rppal = { version = "0.14", features = ["hal"] }
embedded-hal = "0.2"
chrono = { version = "0.4", features = ["serde"] }
serde = { version = "1", features = ["derive"] }
thiserror = "1"
anyhow = "1"
clap = { version = "4", features = ["derive"] }
tokio = { version = "1", features = ["full"] }
axum = "0.7"
tower-http = { version = "0.5", features = ["cors"] }
