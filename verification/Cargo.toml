[package]
name = "burl"
version = "0.1.0"
edition = "2021"
publish = false

[dependencies]
shell-words = "1"
chrono = "0.4"
serde = { version = "1", features = ["derive"] }
serde_json = "1"
serde_yaml = "0.9"
hostname = "*"
clap = { version = "4", features = ["derive"] }
