[package]
name = "sundries"
version = "0.1.0"
edition = "2021"
publish = false

[dependencies]
anstyle = "=1.0.14"
anyhow = "=1.0.104"
chrono = "=0.4.45"
css-color-parser = "0.1"
env_logger = "=0.11.11"
log = "=0.4.34"
rand = "=0.8.8"
rkyv = "=0.7.46"
serde = { version = "=1.0.229", features = ["derive"] }
serde_json = "=1.0.151"
thiserror = "=1.0.69"
tokio = { version = "=1.53.2", features = ["rt"] }
