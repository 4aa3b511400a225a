[package]
name = "rtstore"
version = "0.1.0"
edition = "2021"
publish = false

[dependencies]
arrow = "*"
parquet = "*"
clap = { version = "*", features = ["derive"] }
pretty_env_logger = "*"
