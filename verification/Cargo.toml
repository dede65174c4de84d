[package]
name = "hawkeye_fmt"
version = "0.1.0"
edition = "2021"
publish = false

[dependencies]
regex = "*"
serde = { version = "*", features = ["derive"] }
toml = "*"
minijinja = "*"
clap = { version = "*", features = ["derive"] }
anyhow = "*"
ignore = "*"
walkdir = "*"
log = "*"
env_logger = "*"
