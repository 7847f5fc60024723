[package]
name = "fuckbf"
version = "0.1.0"
edition = "2021"
publish = false

[dependencies]
rand = "0.8"
clap = { version = "4", features = ["derive"] }
colored = "2"
anyhow = "1"
serde_json = "1"
reqwest = { version = "0.11", features = ["blocking"] }
