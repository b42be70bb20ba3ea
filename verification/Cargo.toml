[package]
name = "precompiles"
version = "0.1.0"
edition = "2021"
publish = false

[dependencies]
revm = { version = "19", default-features = false, features = ["std"] }
alloy-sol-types = "0.8"
image = { version = "0.25", default-features = false, features = ["png"] }
plotters = "0.3"
