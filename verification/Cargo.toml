[package]
name = "cc_sessions"
version = "0.1.0"
edition = "2021"
publish = false

[dependencies]
anyhow = "*"
clap = { version = "*", features = ["derive"] }
crossterm = "=0.29.0"
dirs = "*"
grep-matcher = "*"
grep-regex = "*"
ratatui = "=0.30.2"
rayon = "*"
serde = { version = "*", features = ["derive"] }
serde_json = "*"
shellexpand = "*"
skim = "*"
toml = "*"
walkdir = "*"
