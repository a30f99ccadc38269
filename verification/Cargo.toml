[package]
name = "gpu_kernel"
version = "0.1.0"
edition = "2021"
publish = false

[dependencies]
ff-cl-gen = "*"
paired = "*"
rust-gpu-tools = "*"
