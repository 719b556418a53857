[package]
name = "parquet_viewer"
version = "0.1.0"
edition = "2021"
publish = false

[dependencies]
clap = "=2.34.0"
parquet = { version = "=60.0.0", default-features = false, features = ["snap", "brotli", "flate2-rust_backend", "lz4", "zstd"] }

[dev-dependencies]
bytes = "=1.12.1"
