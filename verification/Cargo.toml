[package]
name = "danceable"
version = "0.1.0"
edition = "2021"
publish = false

[dependencies]
anyhow = "=1.0.104"
clap = { version = "=4.6.7", features = ["derive"] }
mimalloc = "=0.1.52"
polars = { version = "=0.55.2", features = ["lazy", "strings"] }
