[package]
name = "sensor_frame"
version = "0.1.0"
edition = "2021"
publish = false

[dependencies]
heapless = "0.8"
postcard = { version = "1", features = ["use-std"] }
serde = { version = "1", features = ["derive"] }
rand = { version = "0.8", features = ["small_rng"] }
