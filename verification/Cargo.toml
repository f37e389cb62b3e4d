[package]
name = "combat_tracker"
version = "0.1.0"
edition = "2021"
publish = false

[dependencies]
clap = "4"
dirs = "*"
serde = { version = "1", features = ["derive"] }
serde_json = "1"
