[package]
name = "ta_orchestrator"
version = "0.1.0"
edition = "2021"
publish = false

[dependencies]
base64 = "0.22"
sha2 = "0.10"
serde_json = "1"
uuid = { version = "1", features = ["v4"] }
thiserror = "2"
