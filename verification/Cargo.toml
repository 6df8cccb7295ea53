[package]
name = "mo_app"
version = "0.1.0"
edition = "2021"
publish = false

[dependencies]
actix-web = "=4.15.0"
chrono = "=0.4.45"
derive_more = "=0.99.20"
mongodb = "2"
serde = { version = "=1.0.229", features = ["derive"] }

[dev-dependencies]
serde_json = "=1.0.151"
