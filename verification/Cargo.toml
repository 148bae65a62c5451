[package]
name = "toolset_io"
version = "0.1.0"
edition = "2021"
publish = false

[dependencies]
colored = "*"
strip-ansi-escapes = "*"
chrono = "*"
dirs = "*"
