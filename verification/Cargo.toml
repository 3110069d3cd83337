[package]
name = "create_image"
version = "0.1.0"
edition = "2021"
publish = false

[dependencies]
nannou = "=0.14.1"
