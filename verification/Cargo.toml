[package]
name = "veloren_server"
version = "0.8.0"
edition = "2021"
publish = false

[dependencies]
num_cpus = "1"
prometheus = "*"
prometheus-hyper = "*"
ron = "0.6"
specs = "0.16"
tokio = { version = "1", features = ["rt-multi-thread", "sync", "net"] }
tracing = "0.1"
vek = "0.12"
