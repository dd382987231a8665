[package]
name = "clash"
version = "0.1.0"
edition = "2021"
publish = false

[dependencies]
sysinfo = "*"
clap = { version = "*", features = ["derive"] }
comfy-table = "*"
indicatif = "*"
owo-colors = "*"
serde = { version = "*", features = ["derive"] }
serde_json = "*"
