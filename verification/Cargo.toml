[package]
name = "tui_editor"
version = "0.1.0"
edition = "2021"
publish = false

[dependencies]
anyhow = "1"
clap = { version = "4", features = ["derive"] }
crossterm = "0.27"
ratatui = "0.26"
ropey = { version = "1.6", default-features = false, features = ["simd"] }
syntect = { version = "5", default-features = false, features = ["default-fancy"] }
