[package]
name = "dockerfile_recon"
version = "0.1.0"
edition = "2021"
publish = false

[dependencies]
regex = "*"
serde_json = "*"
clap = { version = "*", features = ["derive"] }
