[package]
name = "apns_client"
version = "0.1.0"
edition = "2021"
publish = false

[dependencies]
jsonwebtoken = { version = "=11.1.0", features = ["rust_crypto"] }
serde = "=1.0.229"
serde_json = "=1.0.151"
reqwest = { version = "=0.12.28", default-features = false, features = ["rustls-tls"] }
