[package]
name = "mihomo-tui"
version = "0.1.0"
edition = "2021"
publish = false

[dependencies]
indexmap = "2"
md5 = "*"
url = "2"
serde = { version = "1", features = ["derive"] }
serde_json = "1"
serde_yaml = "0.9"
tokio = { version = "1", features = ["full"] }
reqwest = { version = "0.12", default-features = false, features = ["json", "rustls-tls"] }
crossterm = "*"
ratatui = "*"
libc = "0.2"
winreg = "*"
