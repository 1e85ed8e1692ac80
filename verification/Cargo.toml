[package]
name = "ally_poller"
version = "0.1.0"
edition = "2021"
publish = false

[dependencies]
base64 = "=0.13.1"
chrono = "=0.4.45"
env_logger = "*"
log = "*"
reqwest = { version = "=0.13.5", default-features = false, features = ["json", "form"] }
serde = { version = "*", features = ["derive"] }
serde_json = "*"
tokio = { version = "*", features = ["rt-multi-thread", "macros", "time"] }
tokio-postgres = "*"
