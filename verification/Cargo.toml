[package]
name = "image_parse"
version = "0.1.0"
edition = "2021"
publish = false

[dependencies]
anyhow = "1"
crossbeam-channel = "0.5"
image = { version = "0.25", default-features = false, features = ["png", "jpeg"] }
indicatif = "0.17"
num_cpus = "1"
walkdir = "2"
