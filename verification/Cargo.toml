[package]
name = "sampler"
version = "0.1.0"
edition = "2021"
publish = false

[dependencies]
hound = "*"
pitch_calc = "*"
