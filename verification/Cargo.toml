[package]
name = "rust_daq"
version = "0.1.0"
edition = "2021"
publish = false

[dependencies]
anyhow = "1"
clap = { version = "4", features = ["derive"] }
confique = { version = "0.3", features = ["toml"] }
crossbeam-channel = "0.5"
crossterm = "0.28"
ndarray = { version = "0.16", features = ["rayon"] }
ratatui = "0.29"
