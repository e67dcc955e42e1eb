[package]
name = "iex_deep_parser"
version = "0.3.0"
edition = "2021"
publish = false

[dependencies]
anyhow = "1"
arrow = { version = "55", default-features = false }
flate2 = "1"
parquet = { version = "55", default-features = false, features = ["arrow", "zstd"] }
