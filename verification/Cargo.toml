[package]
name = "recent_move"
version = "0.1.0"
edition = "2021"
publish = false

[dependencies]
chrono = "*"
crossterm = "*"
dirs = "*"
inquire = "*"
serde = { version = "*", features = ["derive"] }
serde_json = "*"
