[package]
name = "sipcord_bridge"
version = "0.1.0"
edition = "2021"
publish = false

[dependencies]
claxon = "0.4"
image = { version = "0.25", default-features = false, features = ["png", "jpeg"] }
serenity = { version = "0.12", default-features = false, features = ["builder", "http", "model", "utils", "rustls_backend"] }
thiserror = "2"
tokio = { version = "1", features = ["time"] }
tracing = "0.1"
