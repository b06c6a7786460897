[package]
name = "witcher"
version = "0.1.0"
edition = "2021"
publish = false

[dependencies]
backtrace = "0.3"
colored = "2"
gory = "*"
libc = "0.2"
