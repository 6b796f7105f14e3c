[package]
name = "ubitix"
version = "0.1.0"
edition = "2021"
publish = false

[dependencies]
ipnet = { version = "=2.12.2", features = ["serde"] }
regex = "=1.13.1"
clap = { version = "=4.6.7", features = ["derive"] }
color-eyre = "=0.6.5"
directories = "=6.0.0"
iptables = "=0.6.0"
log = "=0.4.34"
notify = "=8.2.0"
octocrab = "=0.47.1"
serde = { version = "=1.0.229", features = ["derive"] }
serde_json = "=1.0.154"
simplelog = "=0.12.2"
tokio = { version = "=1.54.1", features = ["full"] }
toml = "=1.1.8"
walkdir_minimal = "=1.3.0"
