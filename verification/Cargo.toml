[package]
name = "why"
version = "0.1.0"
edition = "2021"
publish = false

[dependencies]
anyhow = "1"
clap = { version = "4", features = ["derive"] }
crossterm = "0.27"
csv = "1"
dirs = "5"
petgraph = "0.6"
ratatui = "0.24"
serde = { version = "1", features = ["derive"] }
serde_json = "1"
syn = { version = "2", features = ["full", "visit"] }
toml = "0.8"
unicode-width = "0.1"
walkdir = "2"
