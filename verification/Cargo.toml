[package]
name = "fell"
version = "0.1.0"
edition = "2021"
publish = false

[dependencies]
rustix = { version = "1", features = ["param", "fs"] }
anyhow = "1"
thiserror = "2"
libc = "0.2"
crossterm = "0.28"
ratatui = "0.29"
