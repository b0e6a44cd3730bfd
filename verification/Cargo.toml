[package]
name = "env_swap"
version = "0.1.0"
edition = "2021"
publish = false

[dependencies]
clap = { version = "4", features = ["derive"] }
crossterm = "0.28"
dirs = "5"
open = "5"
ratatui = "0.29"
serde = { version = "1", features = ["derive"] }
serde_json = "1"
sys-locale = "0.3"
toml = "0.8"
