[package]
name = "modelhub_windows"
version = "0.1.0"
edition = "2021"
publish = false

[dependencies]
serde = { version = "=1.0.229", features = ["derive"] }
serde_json = "=1.0.154"
reqwest = { version = "=0.12.28", default-features = false, features = ["blocking", "json", "rustls-tls"] }
sysinfo = "=0.40.1"
thiserror = "=2.0.21"
trash = "=5.2.9"
