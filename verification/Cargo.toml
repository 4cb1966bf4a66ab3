[package]
name = "cbundl"
version = "0.1.0"
edition = "2021"
publish = false

[dependencies]
chrono = "0.4"
clap = { version = "4", features = ["derive"] }
color-eyre = "0.6"
const_format = "0.2"
env_logger = "0.11"
eyre = "0.6"
log = "0.4"
owo-colors = "4"
petgraph = "0.6"
rand = "0.8"
regex = "1"
serde = { version = "1", features = ["derive"] }
thiserror = "1"
toml = "0.8"
