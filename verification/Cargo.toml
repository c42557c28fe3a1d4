[package]
name = "grepx"
version = "0.1.0"
edition = "2021"
publish = false

[dependencies]
regex = "1"
anyhow = "1"
clap = { version = "4", features = ["derive"] }
env_logger = "0.11"
indicatif = "0.17"
log = "0.4"
memmap2 = "0.9"
rayon = "1"
walkdir = "2"
