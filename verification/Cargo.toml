[package]
name = "localitysrv"
version = "0.1.0"
edition = "2021"
publish = false

[dependencies]
tokio = { version = "*", features = ["full"] }
axum = "*"
serde = { version = "*", features = ["derive"] }
serde_json = "*"
clap = { version = "*", features = ["derive"] }
rusqlite = { version = "*", features = ["bundled"] }
dotenvy = "*"
thiserror = "*"
futures = "*"
tokio-util = { version = "*", features = ["io"] }
