[package]
name = "uiop_dsp"
version = "0.1.0"
edition = "2021"
publish = false

[dependencies]
anyhow = "*"
clap = { version = "*", features = ["derive"] }
crossterm = "*"
dialoguer = "*"
log = "*"
ratatui = "*"
tokio = { version = "*", features = ["full"] }
tui-logger = "*"
