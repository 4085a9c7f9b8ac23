[package]
name = "pollen_wall"
version = "0.1.0"
edition = "2021"
publish = false

[dependencies]
multibase = "*"
anyhow = "*"
clap = "*"
console = "*"
crossterm = "*"
dirs = "*"
ipfs-api = "*"
tokio = { version = "*", features = ["full"] }
tokio-stream = "*"
wallpaper = "*"
