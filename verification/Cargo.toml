[package]
name = "remap_core"
version = "0.1.0"
edition = "2021"
publish = false

[dependencies]
metrics = "*"
regex = "1"
serde_json = "1"
tracing = "0.1"
