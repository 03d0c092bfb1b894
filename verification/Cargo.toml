[package]
name = "mcai_worker_sdk"
version = "1.0.0"
edition = "2021"
publish = false

[dependencies]
chrono = "0.4"
lapin = { version = "*", default-features = false }
reqwest = { version = "*", default-features = false, features = ["blocking", "json"] }
schemars = "*"
serde = { version = "1", features = ["derive"] }
serde_json = "1"
futures-executor = "0.3"
