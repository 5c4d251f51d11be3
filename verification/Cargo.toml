[package]
name = "cuda_driver"
version = "0.1.0"
edition = "2021"

[dependencies]
glob = "0.3"
libloading = "0.8"
thiserror = "1"
