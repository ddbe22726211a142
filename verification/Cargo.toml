[package]
name = "owm_exporter"
version = "0.1.0"
edition = "2021"
publish = false

[dependencies]
axum = "*"
env_logger = "*"
log = "*"
reqwest = { version = "*", default-features = false, features = ["json"] }
serde = { version = "*", features = ["derive"] }
thiserror = "*"
tokio = { version = "*", features = ["macros", "rt-multi-thread", "time", "net"] }
