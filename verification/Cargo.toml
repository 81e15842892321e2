[package]
name = "wcbe"
version = "0.1.0"
edition = "2021"
publish = false

[dependencies]
egui = { version = "=0.32.3", default-features = false }
rand = "=0.8.8"
coarsetime = "=0.1.38"
