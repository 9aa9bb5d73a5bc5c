[package]
name = "exo_self"
version = "0.1.0"
edition = "2021"
publish = false

[dependencies]
serde = { version = "1", features = ["derive"] }
serde_json = "1"
serde_yaml = "0.9"
clap = { version = "4", features = ["derive"] }
chrono = "0.4"
glob = "0.3"
uuid = { version = "1", features = ["v4"] }
redb = "*"
