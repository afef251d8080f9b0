[package]
name = "wiremann"
version = "0.1.0"
edition = "2021"
publish = false

[dependencies]
num_cpus = "*"
lru = "*"
crossbeam-channel = "*"
thiserror = "*"
tracing = "*"
