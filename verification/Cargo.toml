[package]
name = "sshy"
version = "0.1.0"
edition = "2021"
publish = false

[dependencies]
uuid = { version = "=1.29.1", features = ["v4"] }
dirs = "=5.0.1"
sqlx = { version = "=0.7.4", default-features = false, features = ["sqlite", "runtime-async-std", "migrate"] }
async-std = { version = "=1.13.2", features = ["attributes"] }
async-trait = "=0.1.92"
clap = { version = "=4.6.7", features = ["derive"] }
colorize = "=0.1.0"
env_logger = "=0.11.11"
inquire = "=0.7.5"
log = "=0.4.35"
serde = { version = "=1.0.229", features = ["derive"] }
serde_derive = "=1.0.229"
serde_json = "=1.0.154"
thiserror = "=1.0.69"
