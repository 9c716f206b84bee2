[package]
name = "datez"
version = "0.1.0"
edition = "2021"
publish = false

[dependencies]
jiff = "*"
serde = { version = "1", features = ["derive"] }
serde_json = "1"
bevy_app = { version = "*", default-features = false, features = ["std"] }
bevy_ecs = { version = "*", default-features = false, features = ["std"] }
