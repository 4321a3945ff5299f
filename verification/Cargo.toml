[package]
name = "vade"
version = "0.1.0"
edition = "2021"
publish = false

[dependencies]
clap = { version = "4", features = ["derive"] }
miette = { version = "7", features = ["fancy"] }
minijinja = "2"
serde_json = "1"
toml-span = "0.5"

[dev-dependencies]
