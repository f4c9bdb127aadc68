[package]
name = "openagent_tui"
version = "0.1.0"
edition = "2021"
publish = false

[dependencies]
serde_json = "*"
serde = { version = "*", features = ["derive"] }
chrono = "*"
crossterm = "*"
ratatui = "*"
arboard = "*"
