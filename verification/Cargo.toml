[package]
name = "hosttui"
version = "0.1.0"
edition = "2021"
publish = false

[dependencies]
anyhow = "=1.0.104"
chrono = "=0.4.45"
crossterm = { version = "=0.29.0", features = ["osc52"] }
dirs = "=6.0.0"
nucleo-matcher = "=0.3.1"
portable-pty = "=0.9.0"
ratatui = "=0.30.2"
serde = { version = "=1.0.229", features = ["derive"] }
ssh2 = "=0.9.6"
textwrap = "=0.16.4"
thiserror = "=2.0.21"
toml = "=1.1.8"
tui-input = "=0.15.5"
vt100 = "=0.16.2"
