[package]
name = "oxideav-pipeline"
version = "0.1.0"
edition = "2021"
publish = false

[dependencies]
oxideav-core = "*"
oxideav-pixfmt = "*"
serde_json = "1"
log = "0.4"
