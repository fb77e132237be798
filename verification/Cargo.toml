[package]
name = "terminal-vibes"
version = "0.1.0"
edition = "2021"
publish = false

[dependencies]
anyhow = "1"
clap = { version = "4", features = ["derive"] }
crossterm = "0.28"
dirs = "5"
env_logger = "0.11"
libpulse-binding = "2"
libpulse-simple-binding = "2"
log = "0.4"
ratatui = "0.29"
ringbuf = "0.4"
rustfft = "6"
serde = { version = "1", features = ["derive"] }
toml = "0.8"
