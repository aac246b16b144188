[package]
name = "rcore_os"
version = "0.1.0"
edition = "2021"
publish = false

[dependencies]
spin = "0.7"
lazy_static = "1.4"
