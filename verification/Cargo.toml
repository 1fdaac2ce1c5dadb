[package]
name = "memtool"
version = "0.1.0"
edition = "2021"
publish = false

[dependencies]
rust-crypto = "0.2"
rand = "0.8"
memmap = "0.7"
clap = { version = "4", features = ["derive"] }
anyhow = "1"
