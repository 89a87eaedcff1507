[package]
name = "minecraft"
version = "0.1.0"
edition = "2021"
publish = false

[dependencies]
colored = "*"
lazy_static = "*"
regex = "*"
zip = "*"
