[package]
name = "vifi"
version = "0.1.0"
edition = "2021"
publish = false

[dependencies]
ansi_term = "=0.12.1"
clap = { version = "=3.2.25", features = ["derive"] }
dirs-next = "*"
