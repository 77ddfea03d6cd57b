[package]
name = "wifui"
version = "0.1.0"
edition = "2021"
publish = false

[dependencies]
qrcode = "*"
tokio = { version = "*", features = ["rt-multi-thread", "macros", "sync", "time"] }
crossterm = "*"
ratatui = "*"
color-eyre = "*"
secrecy = "*"
windows = { version = "*", features = ["Win32_Foundation", "Win32_NetworkManagement_WiFi"] }
