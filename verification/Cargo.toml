[package]
name = "testgen"
version = "0.1.0"
edition = "2021"
publish = false

[dependencies]
rand = "0.8"
rckive-genpdf = "*"
clap = { version = "4", features = ["derive"] }
anyhow = "1"
