[package]
name = "deadline_countdown"
version = "0.1.0"
edition = "2021"
publish = false

[dependencies]
chrono = "0.4"
num-bigint = "0.4"
num-traits = "0.2"
serde = { version = "1", features = ["derive"] }
serde_json = "1"
directories = "*"
