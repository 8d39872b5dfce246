[package]
name = "language_cache"
version = "0.1.0"
edition = "2021"
publish = false

[dependencies]
dirs = "6"
tracing = "0.1"
