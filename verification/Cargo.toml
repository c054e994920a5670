[package]
name = "psu"
version = "0.1.0"
edition = "2021"
publish = false

[dependencies]
anyhow = "*"
clap = { version = "*", features = ["derive"] }
clipboard = "*"
color-eyre = "*"
colored = "*"
crossterm = "*"
dirs = "*"
ratatui = "*"
rusqlite = { version = "*", features = ["bundled"] }
serde = { version = "*", features = ["derive"] }
toml = "*"
unicode-width = "*"

[dev-dependencies]
