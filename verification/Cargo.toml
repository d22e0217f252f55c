[package]
name = "winget_tui"
version = "0.1.0"
edition = "2021"
publish = false

[dependencies]
unicode-width = "*"
anyhow = "*"
async-trait = "*"
crossterm = "*"
ratatui = "*"
tokio = { version = "*", features = ["full"] }
