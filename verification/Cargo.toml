[package]
name = "tflite_inference"
version = "0.1.0"
edition = "2021"
publish = false

[dependencies]
anyhow = "*"
libc = "*"
tflite = "*"

[dev-dependencies]
postcard = { version = "*", features = ["use-std"] }
