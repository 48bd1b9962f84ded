[package]
name = "registration_server"
version = "0.1.0"
edition = "2021"
publish = false

[dependencies]
iron = "*"
params = "*"
router = "*"
serde = { version = "1", features = ["derive"] }
serde_json = "1"
uuid = { version = "*", features = ["v4"] }
