[package]
name = "turbotrim"
version = "0.1.0"
edition = "2021"
publish = false

[dependencies]
clap = "=3.2.25"
crossbeam-channel = "=0.5.17"
flate2 = "=1.1.10"
gzp = { version = "=0.11.3", default-features = false, features = ["deflate_rust"] }
itertools = "=0.10.5"
rayon = "=1.12.0"
