[package]
name = "uprof_exporter"
version = "0.1.0"
edition = "2021"
publish = false

[dependencies]
prometheus = "0.13"
hyper = { version = "0.14", features = ["full"] }
tokio = { version = "1", features = ["full"] }
