[package]
name = "futility"
version = "0.1.0"
edition = "2021"
publish = false

[dependencies]
chrono = "*"
clap = { version = "*", features = ["derive"] }
crossbeam = "*"
crossterm = "*"
fern = "*"
humantime = "*"
log = "*"
notify = "*"
ratatui = "*"
