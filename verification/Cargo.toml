[package]
name = "arle"
version = "0.1.0"
edition = "2021"
publish = false

[dependencies]
serde = { version = "=1.0.229", features = ["derive"] }
serde_json = "=1.0.154"
anyhow = "=1.0.104"
thiserror = "=2.0.21"
console = "=0.15.11"
indicatif = "=0.17.11"
libm = "=0.2.16"
half = "=2.7.1"
safetensors = "=0.6.2"
log = "=0.4.35"
reqwest = { version = "=0.12.28", default-features = false, features = ["blocking", "rustls-tls"] }
