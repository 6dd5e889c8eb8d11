[package]
name = "grid_store"
version = "0.1.0"
edition = "2021"
publish = false

[dependencies]
actix = "0.13"
actix-service = "2"
actix-web = { version = "4", default-features = false }
futures = "0.3"
serde = { version = "1", features = ["derive"] }
serde_json = "1"
