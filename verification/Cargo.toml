[package]
name = "http-nu-core"
version = "0.1.0"
edition = "2021"
publish = false

[dependencies]
arc-swap = "=1.9.3"
clap = { version = "=4.6.7", features = ["derive"] }
ctrlc = "=3.5.2"
hyper = { version = "=1.12.0", features = ["full"] }
hyper-util = { version = "=0.1.21", features = ["full"] }
ipnet = "=2.12.2"
notify = "=8.2.1"
rustls = "=0.23.46"
scru128 = "3"
tokio = { version = "=1.54.1", features = ["full"] }
