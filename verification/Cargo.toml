[package]
name = "data_visualizer"
version = "0.1.0"
edition = "2021"
publish = false

[dependencies]
serde = { version = "1", features = ["derive"] }
rocket = { version = "0.5", features = ["json"] }
tokio = { version = "1", features = ["full"] }
reqwest = { version = "0.11", default-features = false, features = ["json"] }
reqwest-eventsource = "0.4"
rand = "0.8"
