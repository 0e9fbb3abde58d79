[package]
name = "termbookman"
version = "0.1.0"
edition = "2021"
publish = false

[dependencies]
arboard = { version = "=3.7.0", default-features = false }
chrono = "=0.4.45"
crossterm = "=0.27.0"
directories = "=5.0.1"
portable-pty = "=0.8.1"
ratatui = "=0.26.3"
reqwest = { version = "=0.12.28", default-features = false, features = ["blocking", "json", "rustls-tls"] }
serde = { version = "1", features = ["derive"] }
serde_json = "=1.0.154"
sysinfo = "=0.30.13"
toml = "=0.8.23"
vt100 = "=0.17.0"
