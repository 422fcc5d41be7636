[package]
name = "qwen3_tts_hip"
version = "0.1.0"
edition = "2021"
publish = false

[dependencies]
safetensors = "=0.8.0"
hound = "=3.5.1"
libloading = "=0.9.0"
serde = { version = "=1.0.229", features = ["derive"] }
serde_json = "=1.0.154"
thiserror = "=2.0.21"
burn = { version = "=0.21.0", default-features = false, features = ["flex"] }
