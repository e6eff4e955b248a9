[package]
name = "dev_launcher"
version = "0.1.0"
edition = "2021"
publish = false

[dependencies]
chrono = "*"
dirs = "*"
libc = "*"
open = "*"
serde = { version = "*", features = ["derive"] }
serde_json = "*"
