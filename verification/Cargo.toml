[package]
name = "node_trace"
version = "0.1.0"
edition = "2021"
publish = false

[dependencies]
chrono = { version = "=0.4.45", default-features = false, features = ["clock"] }
enr = "=0.13.0"
protobuf = "=2.28.0"
