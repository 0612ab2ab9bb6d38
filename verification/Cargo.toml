[package]
name = "conversion"
version = "0.1.0"
edition = "2021"
publish = false

[dependencies]
futures-core = "*"
pin-project-lite = "*"
