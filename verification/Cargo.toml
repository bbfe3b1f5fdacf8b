[package]
name = "tcp_echo"
version = "0.1.0"
edition = "2021"
publish = false

[dependencies]
ahash = "0.8"
clap = { version = "4", features = ["derive"] }
flexi_logger = "*"
futures = "0.3"
log = "0.4"
num_cpus = "1"
tokio = { version = "1", features = ["full"] }
tokio-util = { version = "0.7", features = ["codec"] }
