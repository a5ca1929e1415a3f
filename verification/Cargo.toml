[package]
name = "umu_delta"
version = "0.1.0"
edition = "2021"
publish = false

[dependencies]
bzip2 = "*"
crc32fast = "1"
memmap2 = "0.9"
pyo3 = { version = "0.23", features = ["extension-module"] }
qbsdiff = "*"
