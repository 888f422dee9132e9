[package]
name = "script_segmenter"
version = "0.1.0"
edition = "2021"
publish = false

[dependencies]
icu = { version = "1", features = ["compiled_data"] }
once_cell = "1"
