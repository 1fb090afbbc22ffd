[package]
name = "konsumer_offsets"
version = "0.1.0"
edition = "2021"
publish = false

[dependencies]
bytes_parser = "*"
thiserror = "1"
