[package]
name = "vibe_lox"
version = "0.1.0"
edition = "2021"
publish = false

[dependencies]
anyhow = "1"
clap = { version = "4", features = ["derive"] }
miette = { version = "7", features = ["fancy"] }
rmp-serde = "1"
rustyline = "*"
serde = { version = "1", features = ["derive"] }
serde_json = "1"
thiserror = "2"

[dev-dependencies]
