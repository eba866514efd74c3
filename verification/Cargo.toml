[package]
name = "lazydiff"
version = "0.1.0"
edition = "2021"
publish = false

[dependencies]
similar = "2"
arboard = "3"
clap = { version = "4", features = ["derive"] }
crossterm = "*"
ratatui = "*"
