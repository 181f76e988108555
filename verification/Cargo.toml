[package]
name = "network_scanner"
version = "0.1.0"
edition = "2021"
publish = false

[dependencies]
tokio = { version = "*", features = ["rt-multi-thread", "net", "time", "macros"] }
ratatui = "*"
crossterm = "*"
color-eyre = "*"
