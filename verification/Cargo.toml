[package]
name = "gatelock"
version = "0.1.0"
edition = "2021"
publish = false

[dependencies]
ecdsa = "=0.17.0"
k256 = "=0.14.0"
rand = "=0.8.8"
serde = { version = "=1.0.229", features = ["derive"] }
serde_json = "=1.0.151"
esp32-nimble = "=0.13.0"
esp-idf-svc = "=0.53.0"
