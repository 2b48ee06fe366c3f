[package]
name = "amux"
version = "0.1.0"
edition = "2021"
publish = false

[dependencies]
vt100 = "0.16"
tui-term = "*"
ratatui = "*"
crossterm = { version = "0.29", features = ["event-stream"] }
tokio = { version = "1", features = ["rt-multi-thread", "net", "time", "process", "macros"] }
tokio-util = { version = "0.7", features = ["codec"] }
futures = "0.3"
anyhow = "1"
chrono = "0.4"
clap = { version = "4", features = ["derive"] }
directories = "*"
