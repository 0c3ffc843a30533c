[package]
name = "static_assets"
version = "0.1.0"
edition = "2021"
publish = false

[dependencies]
futures = "=0.1.31"
hyper = "=0.11.27"
mime = "=0.3.17"
mime_guess = "=2.0.4"
serde = { version = "=1.0.229", features = ["derive"] }
