[package]
name = "basket"
version = "0.1.0"
edition = "2021"
publish = false

[dependencies]
chrono = "*"
colored = "*"
crossterm = "*"
notify = "*"
ratatui = "*"
rusqlite = { version = "*", features = ["bundled"] }
serde = { version = "*", features = ["derive"] }
serde_json = "*"
strsim = "*"
terminal-emoji = "*"
tui-piechart = "*"
uuid = { version = "*", features = ["v4"] }
