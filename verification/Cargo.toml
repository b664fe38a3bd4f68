[package]
name = "fleet_image_policy"
version = "0.1.0"
edition = "2021"
publish = false

[dependencies]
serde = { version = "=1.0.229", features = ["derive"] }
serde_json = "=1.0.151"
kubewarden-policy-sdk = { version = "=0.17.3", default-features = false }
