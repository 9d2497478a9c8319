[package]
name = "tcp_monitor"
version = "0.1.0"
edition = "2021"
publish = false

[dependencies]
anyhow = "1"
clap = { version = "4", features = ["derive"] }
crossterm = "0.28"
humantime = "2"
libc = "0.2"
ratatui = "0.29"
tokio = { version = "1", features = ["rt-multi-thread", "macros", "time"] }
