[package]
name = "logr"
version = "0.1.0"
edition = "2021"
publish = false

[dependencies]
regex = "*"
ratatui = "*"
ansi-to-tui = "*"
crossterm = "*"
tokio = { version = "*", features = ["rt", "io-util", "io-std", "time", "macros"] }
clap = { version = "*", features = ["derive"] }
anyhow = "*"
thiserror = "*"
