[package]
name = "oom-alerter"
version = "0.1.1"
edition = "2021"
publish = false

[dependencies]
anyhow = "1"
clap = { version = "4", features = ["derive"] }
notify-rust = "4"
