[package]
name = "service_registry"
version = "0.1.0"
edition = "2021"
publish = false

[dependencies]
parking_lot = "0.12"
redis = "*"
serde = { version = "1", features = ["derive"] }
tokio = { version = "1", features = ["macros", "rt-multi-thread"] }
warp = { version = "0.3", default-features = false }
