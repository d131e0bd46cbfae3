[package]
name = "chess_position"
version = "0.1.0"
edition = "2021"
publish = false

[dependencies]
shakmaty = "0.27"
shakmaty-syzygy = "0.25"
pyo3 = "0.20"
