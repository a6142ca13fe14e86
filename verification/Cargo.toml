[package]
name = "handpose"
version = "0.1.0"
edition = "2021"
publish = false

[dependencies]
anyhow = "*"
crossbeam-channel = "*"
env_logger = "*"
log = "*"
nokhwa = "*"
rayon = "*"
tract-onnx = "*"
