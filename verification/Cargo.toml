[package]
name = "regulators"
version = "0.1.0"
edition = "2021"
publish = false

[dependencies]
uuid = { version = "1", features = ["v4"] }
serde = { version = "1", features = ["derive"] }
serde_derive = "1"
serde_json = "1"
bytes = "1"
rocket = { version = "0.5", features = ["json"] }
rusoto_core = { version = "0.47", default-features = false, features = ["rustls"] }
rusoto_dynamodb = { version = "0.47", default-features = false, features = ["rustls"] }
rusoto_lambda = { version = "0.47", default-features = false, features = ["rustls"] }
serde_dynamodb = "0.9"
