[package]
name = "engine_bench"
version = "0.1.0"
edition = "2021"
publish = false

[dependencies]
strip-ansi-escapes = "*"
colored = "*"
clap = { version = "*", features = ["derive"] }
anyhow = "*"
