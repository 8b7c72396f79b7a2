[package]
name = "rp1"
version = "0.1.0"
edition = "2021"
publish = false

[dependencies]
goblin = "*"
serde = { version = "1", features = ["derive"] }
toml = "*"
clap = { version = "4", features = ["derive"] }
anyhow = "1"
