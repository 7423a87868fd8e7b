[package]
name = "gradle_wiper"
version = "0.1.0"
edition = "2021"
publish = false

[dependencies]
anyhow = "1"
better-panic = "*"
clap = { version = "4", features = ["derive"] }
comfy-table = "*"
directories = "*"
env_logger = "*"
human-panic = "*"
itertools = "*"
log = "0.4"
rust-strings = "*"
sysinfo = "*"
ubyte = "*"
walkdir = "2"
whoami = "*"
