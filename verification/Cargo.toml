[package]
name = "cni-gesprek"
version = "0.1.0"
edition = "2021"
publish = false

[dependencies]
ipnet = "2"
rand = "0.8"
regex = "1"
serde = { version = "1", features = ["derive"] }
serde_json = "1"
clap = { version = "4", features = ["derive"] }
