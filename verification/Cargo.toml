[package]
name = "echo_pipeline"
version = "0.1.0"
edition = "2021"
publish = false

[dependencies]
tokio = { version = "*", features = ["rt-multi-thread", "sync", "time", "macros"] }
tokio-stream = "*"
tonic = "*"
h2 = "*"
tower = { version = "*", features = ["util"] }
