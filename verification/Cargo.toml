[package]
name = "report_core"
version = "0.1.0"
edition = "2021"
publish = false

[dependencies]
docx-rs = "=0.4.22"
env_logger = "0.11"
log = "0.4"
serde = { version = "1", features = ["derive"] }
thiserror = "1"
tokio = { version = "1", features = ["time"] }
