[package]
name = "spectrogram"
version = "0.1.0"
edition = "2021"
publish = false

[dependencies]
aus = "*"
egui = { version = "*", default-features = false }
image = { version = "*", default-features = false }
