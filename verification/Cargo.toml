[package]
name = "parquet_encryption"
version = "0.1.0"
edition = "2021"
publish = false

[dependencies]
ring = { version = "0.17", default-features = false, features = ["std"] }
thrift = { version = "0.17", default-features = false }
