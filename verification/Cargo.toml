[package]
name = "kustomize_tools"
version = "0.1.0"
edition = "2021"
publish = false

[dependencies]
serde = "*"
serde_yaml = "*"
clap = { version = "*", features = ["derive"] }
anyhow = "*"
