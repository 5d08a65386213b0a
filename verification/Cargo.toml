[package]
name = "sqlite_tools"
version = "0.1.0"
edition = "2021"
publish = false

[dependencies]
chrono = { version = "0.4", default-features = false, features = ["alloc"] }
encoding_rs = "0.8"
anyhow = "1"
csv = "1"
serde = { version = "1", features = ["derive"] }
serde_json = "1"
clap = { version = "4", features = ["derive"] }
rusqlite = { version = "*", features = ["bundled"] }
crossterm = "*"
ratatui = "*"
tui-big-text = "*"
color-eyre = "*"
tokio = { version = "1", features = ["rt-multi-thread", "macros", "net", "time"] }
postgres = "*"
