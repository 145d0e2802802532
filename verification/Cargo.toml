[package]
name = "logone"
version = "0.1.0"
edition = "2021"
publish = false

[dependencies]
serde_json = "*"
regex = "*"
anyhow = "*"
clap = { version = "*", features = ["derive"] }
console = "*"
crossterm = "*"
