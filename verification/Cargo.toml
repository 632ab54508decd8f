[package]
name = "str_dist"
version = "0.1.0"
edition = "2021"
publish = false

[dependencies]
rapidfuzz = "*"
unicode-normalization = "*"
rayon = "*"
