[package]
name = "overpower"
version = "0.1.0"
edition = "2021"
publish = false

[dependencies]
clap = "2"
futures = "0.1"
lazy_static = "1"
num_cpus = "1"
reqwest = { version = "0.9", default-features = false }
structopt = "0.3"
tokio = "0.1"
tokio-executor = "0.1"
