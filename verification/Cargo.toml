[package]
name = "anatomy_backend"
version = "0.1.0"
edition = "2021"
publish = false

[dependencies]
uuid = { version = "*", features = ["v4"] }
sodiumoxide = "*"
serde = { version = "*", features = ["derive"] }
serde_json = "*"
dotenv = "*"
