[package]
name = "array2d"
version = "0.1.0"
edition = "2021"
publish = false

[dependencies]
quote = "1"
syn = "2"
