[package]
name = "blob_evolution"
version = "0.1.0"
edition = "2021"
publish = false

[dependencies]
rand = "0.8"
nannou = "0.18"
nannou_egui = "0.5"
