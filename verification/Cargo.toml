[package]
name = "tgoskits"
version = "0.1.0"
edition = "2021"
publish = false

[dependencies]
anyhow = "=1.0.104"
clap = { version = "=4.6.7", features = ["derive"] }
kbpf-basic = "*"
linux-raw-sys = { version = "*", default-features = false, features = ["general", "no_std"] }
syscalls = "=0.6.18"
