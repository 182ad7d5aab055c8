[package]
name = "tauriless"
version = "0.1.0"
edition = "2021"
publish = false

[dependencies]
http = "1"
mime_guess = "=2.0.5"
serde = { version = "=1.0.229", features = ["derive"] }
serde_json = "=1.0.154"
sha2 = "=0.10.9"
thiserror = "=2.0.21"
