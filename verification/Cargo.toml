[package]
name = "disk_scan"
version = "0.1.0"
edition = "2021"
publish = false

[dependencies]
anyhow = "1"
clap = { version = "4", features = ["derive"] }
crossbeam-channel = "0.5"
crossterm = "0.28"
libc = "0.2"
rand = "0.8"
rand_xoshiro = "0.6"
signal-hook = "0.3"
