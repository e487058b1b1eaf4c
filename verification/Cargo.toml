[package]
name = "snek"
version = "0.1.0"
edition = "2021"
publish = false

[dependencies]
rand = "0.8"
ndarray = "0.15"
crossterm = "0.28"
eyre = "0.6"
clap = { version = "4", features = ["derive"] }
clap_complete = "4"
