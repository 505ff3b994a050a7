[package]
name = "kernel_playground"
version = "0.1.0"
edition = "2021"
publish = false

[dependencies]
bitcoin = "0.32"
rawtx-rs = "*"
serde = { version = "1", features = ["derive"] }
serde_json = "1"
clap = { version = "4", features = ["derive"] }
polars = { version = "*", default-features = false, features = ["parquet"] }
bitcoinkernel = "*"
