[package]
name = "geo_engine"
version = "0.1.0"
edition = "2021"
publish = false

[dependencies]
geoutils = "*"
axum = { version = "0.7", features = ["ws"] }
tokio = { version = "1", features = ["sync", "rt"] }
futures = "0.3"
async-channel = "*"
parking_lot = "*"
serde = { version = "1", features = ["derive"] }
serde_json = "1"
