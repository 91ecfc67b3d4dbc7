[package]
name = "qat_offload"
version = "0.1.0"
edition = "2021"
publish = false
