[package]
name = "shio"
version = "0.1.0"
edition = "2021"
publish = false

[dependencies]
futures = "0.1"
hyper = "0.11"
net2 = "0.2"
num_cpus = "1"
tokio-core = "0.1"
