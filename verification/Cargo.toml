[package]
name = "raeen_hle"
version = "0.1.0"
edition = "2021"
publish = false

[dependencies]
dashmap = "6"
tracing = "0.1"
