[package]
name = "marlin"
version = "0.1.0"
edition = "2021"
publish = false

[dependencies]
bytes = "1"
libm = "0.2"
thiserror = "2"
