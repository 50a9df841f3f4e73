[package]
name = "digest_bench_core"
version = "0.1.0"
edition = "2021"
publish = false

[dependencies]
ring = "*"
criterion = "*"
