[package]
name = "maconomy_cli"
version = "0.1.0"
edition = "2021"
publish = false

[dependencies]
anyhow = "1"
chrono = "0.4"
clap = { version = "4", features = ["derive"] }
config = "*"
reqwest = { version = "0.12", default-features = false, features = ["json", "cookies"] }
serde = { version = "1", features = ["derive"] }
serde_json = "1"
shellexpand = "3"
tokio = { version = "1", features = ["macros", "rt-multi-thread", "sync", "time"] }
